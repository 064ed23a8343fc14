//! Text-run assembly: walking a formatted-text instruction stream against
//! the style cascade. Each pushed tag cascades its named style set onto the
//! current top of the style stack; pops that do not match, unknown tags, and
//! unbalanced closes degrade to warnings, never failures — only a failed
//! template substitution stops the walk.
use vstd::prelude::*;

use crate::data::globals::builtin_style;
use crate::data::project::assoc_map;
use crate::data::project::Project;
use crate::format::instrs_view;
use crate::format::FormattedTextInstruction;
use crate::format::Instruction;
use crate::model::styles::TextStyle;
use crate::model::styles::TextStyleView;
use crate::model::text::cascade;
use crate::model::text::FlatTextStyle;
use crate::model::text::FlatTextStyleView;
use crate::render::paint::conds_all;
use crate::render::paint::conditions_hold;
use crate::strings::str_eq;
use crate::templates::bindings_map;
use crate::templates::TemplateError;

verus! {

/// One run of text to paint, with the style in force where it appears.
#[derive(PartialEq, Eq, Debug)]
pub struct TextRun {
    pub text: String,
    pub style: FlatTextStyle,
}

/// A non-fatal oddity met while walking the markup: formatting may look
/// wrong, but the run never fails.
#[derive(PartialEq, Eq, Debug)]
pub enum TextWarning {
    UnknownStyle(String),
    StyleFailedConditions(String),
    MismatchedClose { found: String, open: String },
    UnbalancedClose(String),
    UnsupportedPlaceholder(String),
}

/// The named style set a tag resolves to: the project's registry first,
/// then the builtin sets.
pub open spec fn style_set_resolution(
    styles: Seq<(String, Vec<TextStyle>)>,
    name: Seq<char>,
) -> Option<Seq<TextStyleView>> {
    if assoc_map(styles).contains_key(name) {
        Some(assoc_map(styles)[name]@.map_values(|t: TextStyle| t@))
    } else {
        builtin_style(name)
    }
}

/// The style in force: the top of the stack, or the element's own base
/// style when every pushed tag has been popped.
pub open spec fn flow_top(
    base: FlatTextStyleView,
    stack: Seq<(Seq<char>, FlatTextStyleView)>,
) -> FlatTextStyleView {
    if stack.len() > 0 {
        stack.last().1
    } else {
        base
    }
}

/// One step of the walk over the instruction stream, carrying the style
/// stack and the runs gathered so far; a failed template substitution in a
/// pushed style's conditions yields nothing.
pub open spec fn text_flow_fold(
    instrs: Seq<Instruction>,
    styles: Seq<(String, Vec<TextStyle>)>,
    ctx: Map<Seq<char>, Seq<char>>,
    base: FlatTextStyleView,
    stack: Seq<(Seq<char>, FlatTextStyleView)>,
    runs: Seq<(Seq<char>, FlatTextStyleView)>,
) -> Option<Seq<(Seq<char>, FlatTextStyleView)>>
    decreases instrs.len(),
{
    if instrs.len() == 0 {
        Some(runs)
    } else {
        let rest = instrs.drop_first();
        match instrs[0] {
            Instruction::AddText(t) => text_flow_fold(
                rest,
                styles,
                ctx,
                base,
                stack,
                runs.push((t, flow_top(base, stack))),
            ),
            Instruction::PushStyle(name) => {
                match style_set_resolution(styles, name) {
                    None => text_flow_fold(rest, styles, ctx, base, stack, runs),
                    Some(set) => {
                        let new = cascade(flow_top(base, stack), set);
                        match conds_all(new.conditions, ctx) {
                            None => None,
                            Some(false) => text_flow_fold(rest, styles, ctx, base, stack, runs),
                            Some(true) => text_flow_fold(
                                rest,
                                styles,
                                ctx,
                                base,
                                stack.push((name, new)),
                                runs,
                            ),
                        }
                    },
                }
            },
            Instruction::PopStyle(name) => {
                if stack.len() > 0 {
                    text_flow_fold(rest, styles, ctx, base, stack.drop_last(), runs)
                } else {
                    text_flow_fold(rest, styles, ctx, base, stack, runs)
                }
            },
            Instruction::InsertPlaceholder(name) => text_flow_fold(
                rest,
                styles,
                ctx,
                base,
                stack,
                runs.push((seq![':'] + name + seq![':'], flow_top(base, stack))),
            ),
        }
    }
}

/// The values of a gathered run list.
pub open spec fn runs_view(v: Seq<TextRun>) -> Seq<(Seq<char>, FlatTextStyleView)> {
    v.map_values(|r: TextRun| (r.text@, r.style@))
}

/// Walks an instruction stream against the style registry, gathering the
/// text runs that `text_flow_fold` describes, starting from the element's
/// resolved base style and an empty stack. Unknown tags, tags whose
/// conditions do not hold, mismatched and unbalanced closes, and
/// placeholders degrade to warnings; only a failed template substitution in
/// a pushed style's conditions is an error.
pub fn text_runs(
    instructions: &Vec<FormattedTextInstruction>,
    base: &FlatTextStyle,
    project: &Project,
    bindings: &Vec<(String, String)>,
) -> (r: Result<(Vec<TextRun>, Vec<TextWarning>), TemplateError>)
    ensures
        ({
            let folded = text_flow_fold(
                instrs_view(instructions@),
                project.styles@,
                bindings_map(bindings@),
                base@,
                Seq::empty(),
                Seq::empty(),
            );
            match folded {
                Some(rs) => r matches Ok(p) && runs_view(p.0@) == rs,
                None => r is Err,
            }
        }),
{
    let ghost ctx = bindings_map(bindings@);
    let ghost whole = instrs_view(instructions@);
    let mut runs: Vec<TextRun> = Vec::new();
    let mut warnings: Vec<TextWarning> = Vec::new();
    let mut stack: Vec<(String, FlatTextStyle)> = Vec::new();
    let ghost base0 = base@;
    let mut i: usize = 0;
    proof {
        assert(whole.skip(0) =~= whole);
        assert(runs_view(runs@) =~= Seq::<(Seq<char>, FlatTextStyleView)>::empty());
        assert(stack@.map_values(|p: (String, FlatTextStyle)| (p.0@, p.1@)) =~= Seq::<(
            Seq<char>,
            FlatTextStyleView,
        )>::empty());
    }
    while i < instructions.len()
        invariant
            i <= instructions@.len(),
            ctx == bindings_map(bindings@),
            whole == instrs_view(instructions@),
            base0 == base@,
            text_flow_fold(whole, project.styles@, ctx, base0, Seq::empty(), Seq::empty())
                == text_flow_fold(
                whole.skip(i as int),
                project.styles@,
                ctx,
                base0,
                stack@.map_values(|p: (String, FlatTextStyle)| (p.0@, p.1@)),
                runs_view(runs@),
            ),
        decreases instructions@.len() - i,
    {
        let ghost gstack = stack@.map_values(|p: (String, FlatTextStyle)| (p.0@, p.1@));
        let ghost gruns = runs_view(runs@);
        proof {
            assert(whole.skip(i as int)[0] == instructions@[i as int]@);
            assert(whole.skip(i as int).drop_first() =~= whole.skip(i + 1 as int));
        }
        match &instructions[i] {
            FormattedTextInstruction::AddText(t) => {
                let style = if stack.len() == 0 {
                    base.clone()
                } else {
                    stack[stack.len() - 1].1.clone()
                };
                runs.push(TextRun { text: t.clone(), style });
                proof {
                    assert(runs_view(runs@) =~= gruns.push((t@, flow_top(base0, gstack))));
                }
            },
            FormattedTextInstruction::PushStyle(name) => {
                match project.style_set_for(name.as_str()) {
                    None => {
                        warnings.push(TextWarning::UnknownStyle(name.clone()));
                    },
                    Some(set) => {
                        let mut new = if stack.len() == 0 {
                            base.clone()
                        } else {
                            stack[stack.len() - 1].1.clone()
                        };
                        new.apply(set.as_slice());
                        proof {
                            assert(set@.map_values(|t: TextStyle| t@) == style_set_resolution(
                                project.styles@,
                                name@,
                            )->0);
                            assert(new@ == cascade(
                                flow_top(base0, gstack),
                                style_set_resolution(project.styles@, name@)->0,
                            ));
                        }
                        match conditions_hold(&new.conditions, bindings) {
                            Ok(true) => {
                                stack.push((name.clone(), new));
                                proof {
                                    assert(stack@.map_values(
                                        |p: (String, FlatTextStyle)| (p.0@, p.1@),
                                    ) =~= gstack.push(
                                        (
                                            name@,
                                            cascade(
                                                flow_top(base0, gstack),
                                                style_set_resolution(project.styles@, name@)->0,
                                            ),
                                        ),
                                    ));
                                }
                            },
                            Ok(false) => {
                                warnings.push(TextWarning::StyleFailedConditions(name.clone()));
                            },
                            Err(e) => {
                                return Err(e);
                            },
                        }
                    },
                }
            },
            FormattedTextInstruction::PopStyle(name) => {
                match stack.pop() {
                    Some((open_name, _)) => {
                        if !str_eq(open_name.as_str(), name.as_str()) {
                            warnings.push(
                                TextWarning::MismatchedClose { found: name.clone(), open: open_name },
                            );
                        }
                        proof {
                            assert(stack@.map_values(|p: (String, FlatTextStyle)| (p.0@, p.1@))
                                =~= gstack.drop_last());
                        }
                    },
                    None => {
                        warnings.push(TextWarning::UnbalancedClose(name.clone()));
                    },
                }
            },
            FormattedTextInstruction::InsertPlaceholder(name) => {
                warnings.push(TextWarning::UnsupportedPlaceholder(name.clone()));
                let style = if stack.len() == 0 {
                    base.clone()
                } else {
                    stack[stack.len() - 1].1.clone()
                };
                let mut text = String::new();
                text.push(':');
                text.append(name.as_str());
                text.push(':');
                proof {
                    assert(text@ =~= seq![':'] + name@ + seq![':']);
                }
                runs.push(TextRun { text, style });
                proof {
                    assert(runs_view(runs@) =~= gruns.push(
                        (seq![':'] + name@ + seq![':'], flow_top(base0, gstack)),
                    ));
                }
            },
        }
        i += 1;
    }
    proof {
        assert(whole.skip(instructions@.len() as int).len() == 0);
    }
    Ok((runs, warnings))
}

} // verus!
