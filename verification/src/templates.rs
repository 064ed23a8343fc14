//! Template-aware strings: a text value is classified once, when it is
//! loaded, as either a raw literal or a template that contains placeholders,
//! so that render time never re-scans unchanged literals. Substitution itself
//! is delegated to the handlebars template engine.
use vstd::prelude::*;

verus! {

/// What a template substitution yields for a given template text and binding
/// map: the substituted characters, or nothing when the engine rejects the
/// template. The result is a function of the template and bindings alone.
pub uninterp spec fn substituted(template: Seq<char>, bindings: Map<Seq<char>, Seq<char>>) -> Option<
    Seq<char>,
>;

/// The binding map a list of name/value pairs stands for; a later pair with
/// the same name overrides an earlier one.
pub open spec fn bindings_map(pairs: Seq<(String, String)>) -> Map<Seq<char>, Seq<char>>
    decreases pairs.len(),
{
    if pairs.len() == 0 {
        Map::empty()
    } else {
        bindings_map(pairs.drop_last()).insert(pairs.last().0@, pairs.last().1@)
    }
}

/// Relies on handlebars' `render_template` with HTML escaping turned off: the
/// outcome, success or failure, depends only on the template text and the
/// bindings handed over, which a `BTreeMap` presents in a fixed order.
#[verifier::external_body]
fn hb_render(template: &str, bindings: &Vec<(String, String)>) -> (r: Result<
    String,
    (String, Option<(usize, usize)>),
>)
    ensures
        r matches Ok(s) ==> substituted(template@, bindings_map(bindings@)) == Some(s@),
        r is Err ==> substituted(template@, bindings_map(bindings@)) is None,
{
    let mut hb = handlebars::Handlebars::new();
    hb.register_escape_fn(handlebars::no_escape);
    let data: std::collections::BTreeMap<&str, &str> = bindings.iter().map(
        |p| (p.0.as_str(), p.1.as_str()),
    ).collect();
    match hb.render_template(template, &data) {
        Ok(s) => Ok(s),
        Err(e) => {
            let pos = match e.reason() {
                handlebars::RenderErrorReason::TemplateError(te) => te.pos(),
                _ => None,
            };
            Err((format!("{}", e), pos))
        },
    }
}

/// A failed substitution: located in the template source when the engine says
/// where, opaque otherwise.
#[derive(PartialEq, Eq, Debug)]
pub enum TemplateError {
    UnspecifiedError { description: String },
    TemplateErrorAtLocation { description: String, template_source: String, offset: usize },
}

/// The character offset of a one-based line and column location in `s`, for
/// pointing at the source of a template error; locations past the end land at
/// the end.
pub open spec fn location_offset(s: Seq<char>, line: int, column: int) -> int
    decreases s.len(),
{
    if line <= 1 && column <= 1 {
        0
    } else if s.len() == 0 {
        0
    } else if s[0] == '\n' {
        if line <= 1 {
            0
        } else {
            1 + location_offset(s.drop_first(), line - 1, column)
        }
    } else {
        if line <= 1 {
            1 + location_offset(s.drop_first(), line, column - 1)
        } else {
            1 + location_offset(s.drop_first(), line, column)
        }
    }
}

/// Computes `location_offset` over the text.
pub fn offset_of_location(s: &str, line: usize, column: usize) -> (r: usize)
    ensures
        r == location_offset(s@, line as int, column as int),
        r <= s@.len(),
{
    let n = s.unicode_len();
    let mut i: usize = 0;
    let mut line_left = line;
    let mut col_left = column;
    proof {
        assert(s@.subrange(0, n as int) =~= s@);
    }
    while i < n && !(line_left <= 1 && col_left <= 1)
        invariant
            n == s@.len(),
            i <= n,
            location_offset(s@, line as int, column as int) == i + location_offset(
                s@.subrange(i as int, n as int),
                line_left as int,
                col_left as int,
            ),
        decreases
                n - i + (if line_left <= 1 && col_left <= 1 {
                    0int
                } else {
                    1int
                }),
    {
        let c = s.get_char(i);
        proof {
            assert(s@.subrange(i as int, n as int)[0] == s@[i as int]);
            assert(s@.subrange(i as int, n as int).drop_first() =~= s@.subrange(
                i + 1 as int,
                n as int,
            ));
        }
        if c == '\n' {
            if line_left > 1 {
                line_left -= 1;
                i += 1;
            } else {
                // the requested column lies past the end of its line: stop at
                // the line break itself
                col_left = 1;
            }
        } else {
            if line_left <= 1 {
                col_left -= 1;
            }
            i += 1;
        }
    }
    proof {
        if i == n {
            assert(s@.subrange(i as int, n as int).len() == 0);
        }
    }
    i
}

/// A string value that either is a plain literal or carries template
/// placeholders to be substituted against a data record.
#[derive(PartialEq, Eq, Debug)]
pub enum TemplateAwareString {
    RawString(String),
    Template(String),
}

/// True when `s` holds a template-open marker: two consecutive `{` characters.
pub open spec fn has_open_marker(s: Seq<char>) -> bool {
    exists|i: int| 0 <= i && i + 2 <= s.len() && (#[trigger] s[i]) == '{' && s[i + 1] == '{'
}

/// The mathematical value of a template-aware string.
pub enum TemplateAwareStringView {
    RawString(Seq<char>),
    Template(Seq<char>),
}

impl TemplateAwareStringView {
    /// The characters of the value, whichever way it was classified.
    pub open spec fn contents(self) -> Seq<char> {
        match self {
            TemplateAwareStringView::RawString(s) => s,
            TemplateAwareStringView::Template(s) => s,
        }
    }

    /// What resolving the value against `bindings` yields: a raw literal is
    /// itself, a template goes through substitution.
    pub open spec fn resolved(self, bindings: Map<Seq<char>, Seq<char>>) -> Option<Seq<char>> {
        match self {
            TemplateAwareStringView::RawString(s) => Some(s),
            TemplateAwareStringView::Template(s) => substituted(s, bindings),
        }
    }
}

impl View for TemplateAwareString {
    type V = TemplateAwareStringView;

    open spec fn view(&self) -> TemplateAwareStringView {
        match self {
            TemplateAwareString::RawString(s) => TemplateAwareStringView::RawString(s@),
            TemplateAwareString::Template(s) => TemplateAwareStringView::Template(s@),
        }
    }
}

impl Clone for TemplateAwareString {
    fn clone(&self) -> (r: Self)
        ensures
            r == *self,
    {
        match self {
            TemplateAwareString::RawString(s) => TemplateAwareString::RawString(s.clone()),
            TemplateAwareString::Template(s) => TemplateAwareString::Template(s.clone()),
        }
    }
}

impl TemplateAwareString {
    /// Classifies `contents`: values holding a template-open marker become
    /// templates, all others stay raw literals.
    pub fn new(contents: String) -> (r: TemplateAwareString)
        ensures
            has_open_marker(contents@) ==> r == TemplateAwareString::Template(contents),
            !has_open_marker(contents@) ==> r == TemplateAwareString::RawString(contents),
    {
        let n = contents.as_str().unicode_len();
        let mut i: usize = 0;
        let mut found: bool = false;
        while i < n && !found
            invariant
                n == contents@.len(),
                i <= n,
                !found ==> forall|j: int|
                    0 <= j && j + 2 <= i + 1 && j + 2 <= n ==> !((#[trigger] contents@[j]) == '{'
                        && contents@[j + 1] == '{'),
                found ==> has_open_marker(contents@),
            decreases n - i + (if found { 0int } else { 1int }),
        {
            if i + 1 < n && contents.as_str().get_char(i) == '{' && contents.as_str().get_char(
                i + 1,
            ) == '{' {
                found = true;
                proof {
                    assert(0 <= i && i + 2 <= contents@.len() && contents@[i as int] == '{'
                        && contents@[i + 1] == '{');
                }
            } else {
                i += 1;
            }
        }
        if found {
            TemplateAwareString::Template(contents)
        } else {
            proof {
                assert(!has_open_marker(contents@)) by {
                    assert(forall|j: int|
                        0 <= j && j + 2 <= contents@.len() ==> !((#[trigger] contents@[j]) == '{'
                            && contents@[j + 1] == '{'));
                }
            }
            TemplateAwareString::RawString(contents)
        }
    }

    /// Resolves the value against the given name/value bindings: a raw
    /// literal returns itself without invoking the engine, a template is
    /// substituted; a failed substitution surfaces a template error, located
    /// in the source when the engine reports a position.
    pub fn render(&self, bindings: &Vec<(String, String)>) -> (r: Result<String, TemplateError>)
        ensures
            self@.resolved(bindings_map(bindings@)) matches Some(t) ==> r matches Ok(o) && o@ == t,
            self@.resolved(bindings_map(bindings@)) is None ==> r is Err,
    {
        match self {
            TemplateAwareString::RawString(s) => Ok(s.clone()),
            TemplateAwareString::Template(tpl) => {
                match hb_render(tpl.as_str(), bindings) {
                    Ok(o) => Ok(o),
                    Err((description, pos)) => {
                        match pos {
                            Some((line, column)) => {
                                let offset = offset_of_location(tpl.as_str(), line, column);
                                Err(
                                    TemplateError::TemplateErrorAtLocation {
                                        description,
                                        template_source: tpl.clone(),
                                        offset,
                                    },
                                )
                            },
                            None => Err(TemplateError::UnspecifiedError { description }),
                        }
                    },
                }
            },
        }
    }
}

} // verus!
