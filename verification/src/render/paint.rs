//! Paint resolution for shapes: colors are resolved against the project,
//! style lists fold left to right into one fill and one stroke, and
//! accumulated `only-if` conditions gate whether the shape renders at all.
use vstd::prelude::*;

use crate::data::project::color_resolution;
use crate::data::project::Project;
use crate::data::project::ProjectConfigurationError;
use crate::model::color::Color;
use crate::model::color::ColorRef;
use crate::model::color::ColorRefView;
use crate::model::only_if::only_if_truth;
use crate::model::only_if::resolved_right;
use crate::model::only_if::right_all_resolve;
use crate::model::only_if::OnlyIf;
use crate::model::only_if::OnlyIfView;
use crate::model::styles::PathStyle;
use crate::model::styles::PathStyleView;
use crate::model::stroke::DashPattern;
use crate::model::stroke::DashPatternView;
use crate::templates::bindings_map;
use crate::templates::TemplateError;

verus! {

/// What can stop a card from rendering: a failed template substitution or a
/// failed project lookup.
#[derive(PartialEq, Eq, Debug)]
pub enum CardRenderError {
    Template(TemplateError),
    Project(ProjectConfigurationError),
}

/// What a color reference resolves to against a record and the project's
/// color registry: a static color is itself; a named reference goes through
/// template substitution, then the project palette with builtin fallback.
/// Nothing when the template or the lookup fails.
pub open spec fn color_ref_resolution(
    c: ColorRefView,
    colors: Seq<(String, Color)>,
    ctx: Map<Seq<char>, Seq<char>>,
) -> Option<Color> {
    match c {
        ColorRefView::Static(col) => Some(col),
        ColorRefView::Named(t) => match t.resolved(ctx) {
            Some(n) => color_resolution(colors, n),
            None => None,
        },
    }
}

/// Resolves one color reference for a card, as `color_ref_resolution`
/// describes; a failure surfaces the template error or the unknown name.
pub fn resolve_color_ref(color: &ColorRef, project: &Project, bindings: &Vec<(String, String)>) -> (r:
    Result<Color, CardRenderError>)
    ensures
        match color_ref_resolution(color@, project.colors@, bindings_map(bindings@)) {
            Some(c) => r == Ok::<_, CardRenderError>(c),
            None => r is Err,
        },
{
    match color {
        ColorRef::Static(c) => Ok(*c),
        ColorRef::Named(t) => {
            match t.render(bindings) {
                Ok(name) => {
                    match project.color_named(name.as_str()) {
                        Ok(c) => Ok(c),
                        Err(e) => Err(CardRenderError::Project(e)),
                    }
                },
                Err(e) => Err(CardRenderError::Template(e)),
            }
        },
    }
}

/// What one condition evaluates to, or nothing when a template in it fails.
pub open spec fn cond_eval(c: OnlyIfView, ctx: Map<Seq<char>, Seq<char>>) -> Option<bool> {
    if c.left.resolved(ctx) is Some && right_all_resolve(c.right, ctx) {
        Some(only_if_truth(c.left.resolved(ctx)->0, c.op, resolved_right(c.right, ctx)))
    } else {
        None
    }
}

/// The conjunction of a condition list, evaluated left to right and
/// short-circuiting: once one condition is false, later ones are not
/// evaluated, so their template errors cannot surface.
pub open spec fn conds_all(cs: Seq<OnlyIfView>, ctx: Map<Seq<char>, Seq<char>>) -> Option<bool>
    decreases cs.len(),
{
    if cs.len() == 0 {
        Some(true)
    } else {
        match cond_eval(cs[0], ctx) {
            None => None,
            Some(false) => Some(false),
            Some(true) => conds_all(cs.drop_first(), ctx),
        }
    }
}

/// The views of a condition list.
pub open spec fn conds_view(v: Seq<OnlyIf>) -> Seq<OnlyIfView> {
    v.map_values(|c: OnlyIf| c@)
}

/// Evaluates a whole condition list against a record, as `conds_all`
/// describes.
pub fn conditions_hold(conds: &Vec<OnlyIf>, bindings: &Vec<(String, String)>) -> (r: Result<
    bool,
    TemplateError,
>)
    ensures
        match conds_all(conds_view(conds@), bindings_map(bindings@)) {
            Some(b) => r == Ok::<_, TemplateError>(b),
            None => r is Err,
        },
{
    let ghost ctx = bindings_map(bindings@);
    let ghost whole = conds_view(conds@);
    let mut i: usize = 0;
    proof {
        assert(whole.skip(0) =~= whole);
    }
    while i < conds.len()
        invariant
            i <= conds@.len(),
            ctx == bindings_map(bindings@),
            whole == conds_view(conds@),
            conds_all(whole, ctx) == conds_all(whole.skip(i as int), ctx),
        decreases conds@.len() - i,
    {
        proof {
            assert(whole.skip(i as int)[0] == conds@[i as int]@);
            assert(whole.skip(i as int).drop_first() =~= whole.skip(i + 1 as int));
        }
        match conds[i].evaluate(bindings) {
            Ok(b) => {
                if !b {
                    return Ok(false);
                }
            },
            Err(e) => {
                return Err(e);
            },
        }
        i += 1;
    }
    proof {
        assert(whole.skip(conds@.len() as int).len() == 0);
    }
    Ok(true)
}

/// The resolved painting instructions of one shape: fill first, stroke
/// second, and whether the accumulated conditions let it render at all.
#[derive(PartialEq, Eq, Debug)]
pub struct PathPaint {
    pub fill: Option<Color>,
    pub stroke: Option<StrokePaint>,
    pub visible: bool,
}

/// A resolved stroke: width, concrete color, dash pattern.
#[derive(PartialEq, Eq, Debug)]
pub struct StrokePaint {
    pub width: usize,
    pub color: Color,
    pub pattern: DashPattern,
}

/// The mathematical value of a resolved paint: fill, stroke as
/// (width, color, pattern), and visibility.
pub open spec fn paint_state(p: PathPaint) -> (
    Option<Color>,
    Option<(int, Color, DashPatternView)>,
    bool,
) {
    (
        p.fill,
        match p.stroke {
            Some(s) => Some((s.width as int, s.color, s.pattern@)),
            None => None,
        },
        p.visible,
    )
}

/// Folds a path-style list left to right: a later solid or stroke layer
/// replaces the earlier one, conditions AND together, and a failed template
/// or color lookup stops everything.
pub open spec fn path_fold(
    styles: Seq<PathStyleView>,
    colors: Seq<(String, Color)>,
    ctx: Map<Seq<char>, Seq<char>>,
    state: (Option<Color>, Option<(int, Color, DashPatternView)>, bool),
) -> Option<(Option<Color>, Option<(int, Color, DashPatternView)>, bool)>
    decreases styles.len(),
{
    if styles.len() == 0 {
        Some(state)
    } else {
        match styles[0] {
            PathStyleView::Stroke(st) => match color_ref_resolution(st.color, colors, ctx) {
                Some(c) => path_fold(
                    styles.drop_first(),
                    colors,
                    ctx,
                    (state.0, Some((st.width as int, c, st.pattern)), state.2),
                ),
                None => None,
            },
            PathStyleView::Solid(so) => match color_ref_resolution(so, colors, ctx) {
                Some(c) => path_fold(styles.drop_first(), colors, ctx, (Some(c), state.1, state.2)),
                None => None,
            },
            PathStyleView::OnlyIf(c) => {
                if !state.2 {
                    // an earlier condition already hid the shape, so this one
                    // is not evaluated and cannot fail
                    path_fold(styles.drop_first(), colors, ctx, state)
                } else {
                    match cond_eval(c, ctx) {
                        Some(b) => path_fold(styles.drop_first(), colors, ctx, (state.0, state.1, b)),
                        None => None,
                    }
                }
            },
        }
    }
}

/// The views of a path-style list.
pub open spec fn path_styles_view(v: Seq<PathStyle>) -> Seq<PathStyleView> {
    v.map_values(|s: PathStyle| s@)
}

/// Resolves a shape's style list into concrete paint, as `path_fold`
/// describes from an empty, visible initial state. A failed template or an
/// unknown color name is surfaced instead.
pub fn resolve_path_paint(
    styles: &Vec<PathStyle>,
    project: &Project,
    bindings: &Vec<(String, String)>,
) -> (r: Result<PathPaint, CardRenderError>)
    ensures
        ({
            let folded = path_fold(
                path_styles_view(styles@),
                project.colors@,
                bindings_map(bindings@),
                (None, None, true),
            );
            match folded {
                Some(st) => r matches Ok(p) && paint_state(p) == st,
                None => r is Err,
            }
        }),
{
    let ghost ctx = bindings_map(bindings@);
    let ghost whole = path_styles_view(styles@);
    let mut paint = PathPaint { fill: None, stroke: None, visible: true };
    let mut i: usize = 0;
    proof {
        assert(whole.skip(0) =~= whole);
    }
    while i < styles.len()
        invariant
            i <= styles@.len(),
            ctx == bindings_map(bindings@),
            whole == path_styles_view(styles@),
            path_fold(whole, project.colors@, ctx, (None, None, true)) == path_fold(
                whole.skip(i as int),
                project.colors@,
                ctx,
                paint_state(paint),
            ),
        decreases styles@.len() - i,
    {
        proof {
            assert(whole.skip(i as int)[0] == styles@[i as int]@);
            assert(whole.skip(i as int).drop_first() =~= whole.skip(i + 1 as int));
        }
        match &styles[i] {
            PathStyle::Stroke(st) => {
                match resolve_color_ref(&st.color, project, bindings) {
                    Ok(c) => {
                        paint.stroke = Some(
                            StrokePaint { width: st.width, color: c, pattern: st.pattern.clone() },
                        );
                    },
                    Err(e) => {
                        return Err(e);
                    },
                }
            },
            PathStyle::Solid(so) => {
                match resolve_color_ref(&so.color, project, bindings) {
                    Ok(c) => {
                        paint.fill = Some(c);
                    },
                    Err(e) => {
                        return Err(e);
                    },
                }
            },
            PathStyle::OnlyIf(c) => {
                if paint.visible {
                    match c.evaluate(bindings) {
                        Ok(b) => {
                            paint.visible = b;
                        },
                        Err(e) => {
                            return Err(CardRenderError::Template(e));
                        },
                    }
                }
            },
        }
        i += 1;
    }
    proof {
        assert(whole.skip(styles@.len() as int).len() == 0);
    }
    Ok(paint)
}

} // verus!
