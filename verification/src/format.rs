//! Inline markup parser: turns resolved text holding `<tag>`/`</tag>` style
//! markers and `:name:` placeholder sigils into a flat instruction stream.
//! Malformed markup never fails: every abandoned token is re-emitted verbatim
//! as literal text.
use vstd::prelude::*;

use crate::strings::str_to_chars;

verus! {

/// One step of a formatted-text run: literal text, a style push or pop, or a
/// placeholder to insert.
#[derive(PartialEq, Eq, Debug)]
pub enum FormattedTextInstruction {
    AddText(String),
    PushStyle(String),
    PopStyle(String),
    InsertPlaceholder(String),
}

/// The mathematical value of one instruction.
pub enum Instruction {
    AddText(Seq<char>),
    PushStyle(Seq<char>),
    PopStyle(Seq<char>),
    InsertPlaceholder(Seq<char>),
}

impl View for FormattedTextInstruction {
    type V = Instruction;

    open spec fn view(&self) -> Instruction {
        match self {
            FormattedTextInstruction::AddText(s) => Instruction::AddText(s@),
            FormattedTextInstruction::PushStyle(s) => Instruction::PushStyle(s@),
            FormattedTextInstruction::PopStyle(s) => Instruction::PopStyle(s@),
            FormattedTextInstruction::InsertPlaceholder(s) => Instruction::InsertPlaceholder(s@),
        }
    }
}

/// The values of a whole instruction list.
pub open spec fn instrs_view(v: Seq<FormattedTextInstruction>) -> Seq<Instruction> {
    v.map_values(|i: FormattedTextInstruction| i@)
}

/// Characters allowed in a style tag name.
pub open spec fn is_tag_char(c: char) -> bool {
    ('A' <= c <= 'Z') || ('a' <= c <= 'z') || ('0' <= c <= '9') || c == '.' || c == '_' || c == '-'
}

/// Characters allowed in a placeholder name: tag characters plus `/`.
pub open spec fn is_placeholder_char(c: char) -> bool {
    is_tag_char(c) || c == '/'
}

/// The parser's control state, with the partial token gathered so far.
pub enum ParserStateView {
    Text,
    TagSniff,
    OpenTag(Seq<char>),
    CloseTag(Seq<char>),
    Placeholder(Seq<char>),
}

/// Closes the pending literal-text buffer as one `AddText`, or emits nothing
/// when the buffer is empty.
pub open spec fn flush_text(buf: Seq<char>, out: Seq<Instruction>) -> Seq<Instruction> {
    if buf.len() > 0 {
        out.push(Instruction::AddText(buf))
    } else {
        out
    }
}

/// One character-at-a-time transition of the markup parser. Abandoned tokens
/// re-emit every consumed character verbatim into the text buffer.
pub open spec fn parser_step(
    st: ParserStateView,
    buf: Seq<char>,
    out: Seq<Instruction>,
    c: char,
) -> (ParserStateView, Seq<char>, Seq<Instruction>) {
    match st {
        ParserStateView::Text => {
            if c == '<' {
                (ParserStateView::TagSniff, buf, out)
            } else if c == ':' {
                (ParserStateView::Placeholder(Seq::empty()), buf, out)
            } else {
                (ParserStateView::Text, buf.push(c), out)
            }
        },
        ParserStateView::TagSniff => {
            if is_tag_char(c) {
                (ParserStateView::OpenTag(Seq::empty().push(c)), buf, out)
            } else if c == '/' {
                (ParserStateView::CloseTag(Seq::empty()), buf, out)
            } else {
                (ParserStateView::Text, buf.push('<').push(c), out)
            }
        },
        ParserStateView::OpenTag(t) => {
            if is_tag_char(c) {
                (ParserStateView::OpenTag(t.push(c)), buf, out)
            } else if c == '>' {
                (ParserStateView::Text, Seq::empty(), flush_text(buf, out).push(
                    Instruction::PushStyle(t),
                ))
            } else {
                (ParserStateView::Text, (buf.push('<') + t).push(c), out)
            }
        },
        ParserStateView::CloseTag(t) => {
            if is_tag_char(c) {
                (ParserStateView::CloseTag(t.push(c)), buf, out)
            } else if c == '>' {
                if t.len() == 0 {
                    (ParserStateView::Text, buf.push('<').push('/').push('>'), out)
                } else {
                    (ParserStateView::Text, Seq::empty(), flush_text(buf, out).push(
                        Instruction::PopStyle(t),
                    ))
                }
            } else {
                (ParserStateView::Text, (buf.push('<').push('/') + t).push(c), out)
            }
        },
        ParserStateView::Placeholder(t) => {
            if is_placeholder_char(c) {
                (ParserStateView::Placeholder(t.push(c)), buf, out)
            } else if c == ':' {
                if t.len() == 0 {
                    (ParserStateView::Text, buf.push(':').push(':'), out)
                } else {
                    (ParserStateView::Text, Seq::empty(), flush_text(buf, out).push(
                        Instruction::InsertPlaceholder(t),
                    ))
                }
            } else {
                (ParserStateView::Text, (buf.push(':') + t).push(c), out)
            }
        },
    }
}

/// Runs the parser over `s` from the given state.
pub open spec fn parser_run(
    s: Seq<char>,
    st: ParserStateView,
    buf: Seq<char>,
    out: Seq<Instruction>,
) -> (ParserStateView, Seq<char>, Seq<Instruction>)
    decreases s.len(),
{
    if s.len() == 0 {
        (st, buf, out)
    } else {
        let next = parser_step(st, buf, out, s[0]);
        parser_run(s.drop_first(), next.0, next.1, next.2)
    }
}

/// The instruction stream that parsing `s` produces: run the machine over the
/// whole input, then flush any remaining literal text.
pub open spec fn parse_spec(s: Seq<char>) -> Seq<Instruction> {
    let end = parser_run(s, ParserStateView::Text, Seq::empty(), Seq::empty());
    flush_text(end.1, end.2)
}

proof fn lemma_run_snoc(
    s: Seq<char>,
    c: char,
    st: ParserStateView,
    buf: Seq<char>,
    out: Seq<Instruction>,
)
    ensures
        parser_run(s.push(c), st, buf, out) == parser_step(
            parser_run(s, st, buf, out).0,
            parser_run(s, st, buf, out).1,
            parser_run(s, st, buf, out).2,
            c,
        ),
    decreases s.len(),
{
    if s.len() == 0 {
        assert(s.push(c)[0] == c);
        assert(s.push(c).drop_first() =~= Seq::<char>::empty());
        let next = parser_step(st, buf, out, c);
        assert((next.0, next.1, next.2) =~= next);
        let endb = parser_run(s, st, buf, out);
        assert(endb == (st, buf, out));
        assert(parser_run(s.push(c), st, buf, out) == parser_run(
            s.push(c).drop_first(),
            next.0,
            next.1,
            next.2,
        ));
        assert(parser_run(s.push(c).drop_first(), next.0, next.1, next.2) == (
            next.0,
            next.1,
            next.2,
        ));
        assert(parser_run(s.push(c), st, buf, out) == parser_step(st, buf, out, c));
        assert(parser_step(endb.0, endb.1, endb.2, c) == parser_step(st, buf, out, c));
    } else {
        let t = s.push(c);
        assert(t[0] == s[0]);
        assert(t.drop_first() =~= s.drop_first().push(c));
        let next = parser_step(st, buf, out, s[0]);
        lemma_run_snoc(s.drop_first(), c, next.0, next.1, next.2);
        assert(parser_run(t, st, buf, out) == parser_run(t.drop_first(), next.0, next.1, next.2));
        assert(parser_run(t.drop_first(), next.0, next.1, next.2) == parser_run(
            s.drop_first().push(c),
            next.0,
            next.1,
            next.2,
        ));
        let mid = parser_run(s.drop_first(), next.0, next.1, next.2);
        assert(parser_run(s.drop_first().push(c), next.0, next.1, next.2) == parser_step(
            mid.0,
            mid.1,
            mid.2,
            c,
        ));
        let end = parser_run(s, st, buf, out);
        assert(end == mid);
    }
}

/// The exec parser's control state.
#[derive(PartialEq, Eq, Debug, Clone, Copy)]
pub enum ParserState {
    ReadingText,
    ReadingStyleTag,
    ReadingStyleOpenTag,
    ReadingStyleCloseTag,
    ReadingPlaceholderSigil,
}

/// The spec state an exec state and tag buffer stand for.
pub open spec fn state_view(st: ParserState, tag: Seq<char>) -> ParserStateView {
    match st {
        ParserState::ReadingText => ParserStateView::Text,
        ParserState::ReadingStyleTag => ParserStateView::TagSniff,
        ParserState::ReadingStyleOpenTag => ParserStateView::OpenTag(tag),
        ParserState::ReadingStyleCloseTag => ParserStateView::CloseTag(tag),
        ParserState::ReadingPlaceholderSigil => ParserStateView::Placeholder(tag),
    }
}

/// A single-pass character parser over one text value.
pub struct Parser<'a> {
    pub text: &'a str,
    pub state: ParserState,
    pub current_text_buffer: String,
    pub current_tag_buffer: String,
}

/// A freshly-built parser: reading text, with empty buffers.
pub open spec fn parser_fresh(p: Parser<'_>) -> bool {
    &&& p.state is ReadingText
    &&& p.current_text_buffer@ == Seq::<char>::empty()
    &&& p.current_tag_buffer@ == Seq::<char>::empty()
}

fn is_tag_char_exec(c: char) -> (r: bool)
    ensures
        r == is_tag_char(c),
{
    ('A' <= c && c <= 'Z') || ('a' <= c && c <= 'z') || ('0' <= c && c <= '9') || c == '.' || c
        == '_' || c == '-'
}

fn is_placeholder_char_exec(c: char) -> (r: bool)
    ensures
        r == is_placeholder_char(c),
{
    is_tag_char_exec(c) || c == '/'
}

impl<'a> Parser<'a> {
    /// Sets up a parser over `text`.
    pub fn new(text: &'a str) -> (r: Parser<'a>)
        ensures
            r.text == text,
            parser_fresh(r),
    {
        Parser {
            text,
            state: ParserState::ReadingText,
            current_text_buffer: String::new(),
            current_tag_buffer: String::new(),
        }
    }

    /// Consumes the input and returns the instruction stream `parse_spec`
    /// describes. This parser cannot fail: malformed markup degrades to
    /// literal text.
    pub fn parse(self) -> (r: Vec<FormattedTextInstruction>)
        requires
            parser_fresh(self),
        ensures
            instrs_view(r@) == parse_spec(self.text@),
    {
        let cs = str_to_chars(self.text);
        let n = cs.len();
        let mut state = self.state;
        let mut text_buf = self.current_text_buffer;
        let mut tag_buf = self.current_tag_buffer;
        let mut out: Vec<FormattedTextInstruction> = Vec::new();
        let mut i: usize = 0;

        proof {
            assert(self.text@.subrange(0, 0) =~= Seq::<char>::empty());
            assert(instrs_view(out@) =~= Seq::<Instruction>::empty());
        }
        while i < n
            invariant
                cs@ == self.text@,
                n == self.text@.len(),
                i <= n,
                (state is ReadingText || state is ReadingStyleTag) ==> tag_buf@
                    == Seq::<char>::empty(),
                parser_run(
                    self.text@.subrange(0, i as int),
                    ParserStateView::Text,
                    Seq::empty(),
                    Seq::empty(),
                ) == (state_view(state, tag_buf@), text_buf@, instrs_view(out@)),
            decreases n - i,
        {
            let c = cs[i];
            let ghost prev_state = state_view(state, tag_buf@);
            let ghost prev_buf = text_buf@;
            let ghost prev_out = instrs_view(out@);
            match state {
                ParserState::ReadingText => {
                    if c == '<' {
                        state = ParserState::ReadingStyleTag;
                    } else if c == ':' {
                        state = ParserState::ReadingPlaceholderSigil;
                    } else {
                        text_buf.push(c);
                    }
                },
                ParserState::ReadingStyleTag => {
                    if is_tag_char_exec(c) {
                        tag_buf.push(c);
                        state = ParserState::ReadingStyleOpenTag;
                        proof {
                            assert(tag_buf@ =~= Seq::<char>::empty().push(c));
                        }
                    } else if c == '/' {
                        state = ParserState::ReadingStyleCloseTag;
                    } else {
                        text_buf.push('<');
                        text_buf.push(c);
                        state = ParserState::ReadingText;
                    }
                },
                ParserState::ReadingStyleOpenTag => {
                    if is_tag_char_exec(c) {
                        tag_buf.push(c);
                    } else if c == '>' {
                        if text_buf.unicode_len() > 0 {
                            out.push(FormattedTextInstruction::AddText(text_buf));
                            text_buf = String::new();
                            proof {
                                assert(instrs_view(out@) =~= prev_out.push(
                                    Instruction::AddText(prev_buf),
                                ));
                            }
                        }
                        out.push(FormattedTextInstruction::PushStyle(tag_buf));
                        tag_buf = String::new();
                        state = ParserState::ReadingText;
                        proof {
                            assert(instrs_view(out@) =~= instrs_view(out@.drop_last()).push(
                                out@.last()@,
                            ));
                        }
                    } else {
                        text_buf.push('<');
                        text_buf.append(tag_buf.as_str());
                        text_buf.push(c);
                        tag_buf = String::new();
                        state = ParserState::ReadingText;
                    }
                },
                ParserState::ReadingStyleCloseTag => {
                    if is_tag_char_exec(c) {
                        tag_buf.push(c);
                    } else if c == '>' {
                        if tag_buf.unicode_len() == 0 {
                            text_buf.push('<');
                            text_buf.push('/');
                            text_buf.push('>');
                            state = ParserState::ReadingText;
                        } else {
                            if text_buf.unicode_len() > 0 {
                                out.push(FormattedTextInstruction::AddText(text_buf));
                                text_buf = String::new();
                                proof {
                                    assert(instrs_view(out@) =~= prev_out.push(
                                        Instruction::AddText(prev_buf),
                                    ));
                                }
                            }
                            out.push(FormattedTextInstruction::PopStyle(tag_buf));
                            tag_buf = String::new();
                            state = ParserState::ReadingText;
                            proof {
                                assert(instrs_view(out@) =~= instrs_view(out@.drop_last()).push(
                                    out@.last()@,
                                ));
                            }
                        }
                    } else {
                        text_buf.push('<');
                        text_buf.push('/');
                        text_buf.append(tag_buf.as_str());
                        text_buf.push(c);
                        tag_buf = String::new();
                        state = ParserState::ReadingText;
                    }
                },
                ParserState::ReadingPlaceholderSigil => {
                    if is_placeholder_char_exec(c) {
                        tag_buf.push(c);
                    } else if c == ':' {
                        if tag_buf.unicode_len() == 0 {
                            text_buf.push(':');
                            text_buf.push(':');
                            state = ParserState::ReadingText;
                        } else {
                            if text_buf.unicode_len() > 0 {
                                out.push(FormattedTextInstruction::AddText(text_buf));
                                text_buf = String::new();
                                proof {
                                    assert(instrs_view(out@) =~= prev_out.push(
                                        Instruction::AddText(prev_buf),
                                    ));
                                }
                            }
                            out.push(FormattedTextInstruction::InsertPlaceholder(tag_buf));
                            tag_buf = String::new();
                            state = ParserState::ReadingText;
                            proof {
                                assert(instrs_view(out@) =~= instrs_view(out@.drop_last()).push(
                                    out@.last()@,
                                ));
                            }
                        }
                    } else {
                        text_buf.push(':');
                        text_buf.append(tag_buf.as_str());
                        text_buf.push(c);
                        tag_buf = String::new();
                        state = ParserState::ReadingText;
                    }
                },
            }
            proof {
                assert(self.text@.subrange(0, i + 1 as int) =~= self.text@.subrange(
                    0,
                    i as int,
                ).push(self.text@[i as int]));
                lemma_run_snoc(
                    self.text@.subrange(0, i as int),
                    self.text@[i as int],
                    ParserStateView::Text,
                    Seq::empty(),
                    Seq::empty(),
                );
                assert((state_view(state, tag_buf@), text_buf@, instrs_view(out@)) == parser_step(
                    prev_state,
                    prev_buf,
                    prev_out,
                    self.text@[i as int],
                ));
            }
            i += 1;
        }

        if text_buf.unicode_len() > 0 {
            let ghost prev_out = instrs_view(out@);
            let ghost prev_buf = text_buf@;
            out.push(FormattedTextInstruction::AddText(text_buf));
            proof {
                assert(instrs_view(out@) =~= prev_out.push(Instruction::AddText(prev_buf)));
            }
        }
        proof {
            assert(self.text@.subrange(0, n as int) =~= self.text@);
        }
        out
    }
}

/// Parses `text` into its formatted-text instruction stream.
pub fn parse(text: &str) -> (r: Vec<FormattedTextInstruction>)
    ensures
        instrs_view(r@) == parse_spec(text@),
{
    let parser = Parser::new(text);
    parser.parse()
}

/// The characters a partially-read token has consumed so far: what the
/// abandon rules would re-emit.
pub open spec fn pending_chars(st: ParserStateView) -> Seq<char> {
    match st {
        ParserStateView::Text => Seq::empty(),
        ParserStateView::TagSniff => seq!['<'],
        ParserStateView::OpenTag(t) => seq!['<'] + t,
        ParserStateView::CloseTag(t) => seq!['<', '/'] + t,
        ParserStateView::Placeholder(t) => seq![':'] + t,
    }
}

proof fn lemma_step_no_emit(st: ParserStateView, buf: Seq<char>, out: Seq<Instruction>, c: char)
    ensures
        ({
            let next = parser_step(st, buf, out, c);
            next.2.len() >= out.len() && (next.2 == out ==> next.1 + pending_chars(next.0) =~= buf
                + pending_chars(st) + seq![c])
        }),
{
    let next = parser_step(st, buf, out, c);
    if next.2 == out {
        match st {
            ParserStateView::Text => {
                if c == '<' {
                    assert(next.1 + pending_chars(next.0) =~= buf + pending_chars(st) + seq![c]);
                } else if c == ':' {
                    assert(next.1 + pending_chars(next.0) =~= buf + pending_chars(st) + seq![c]);
                } else {
                    assert(next.1 + pending_chars(next.0) =~= buf + pending_chars(st) + seq![c]);
                }
            },
            ParserStateView::TagSniff => {
                if is_tag_char(c) {
                    assert(next.1 + pending_chars(next.0) =~= buf + pending_chars(st) + seq![c]);
                } else if c == '/' {
                    assert(next.1 + pending_chars(next.0) =~= buf + pending_chars(st) + seq![c]);
                } else {
                    assert(next.1 + pending_chars(next.0) =~= buf + pending_chars(st) + seq![c]);
                }
            },
            ParserStateView::OpenTag(t) => {
                if is_tag_char(c) {
                    assert(next.1 + pending_chars(next.0) =~= buf + pending_chars(st) + seq![c]);
                } else if c == '>' {
                    assert(next.2.len() > out.len());
                } else {
                    assert(next.1 + pending_chars(next.0) =~= buf + pending_chars(st) + seq![c]);
                }
            },
            ParserStateView::CloseTag(t) => {
                if is_tag_char(c) {
                    assert(next.1 + pending_chars(next.0) =~= buf + pending_chars(st) + seq![c]);
                } else if c == '>' {
                    if t.len() == 0 {
                        assert(next.1 + pending_chars(next.0) =~= buf + pending_chars(st)
                            + seq![c]);
                    } else {
                        assert(next.2.len() > out.len());
                    }
                } else {
                    assert(next.1 + pending_chars(next.0) =~= buf + pending_chars(st) + seq![c]);
                }
            },
            ParserStateView::Placeholder(t) => {
                if is_placeholder_char(c) {
                    assert(next.1 + pending_chars(next.0) =~= buf + pending_chars(st) + seq![c]);
                } else if c == ':' {
                    if t.len() == 0 {
                        assert(next.1 + pending_chars(next.0) =~= buf + pending_chars(st)
                            + seq![c]);
                    } else {
                        assert(next.2.len() > out.len());
                    }
                } else {
                    assert(next.1 + pending_chars(next.0) =~= buf + pending_chars(st) + seq![c]);
                }
            },
        }
    }
}

proof fn lemma_no_emit_reconstruct(
    s: Seq<char>,
    st: ParserStateView,
    buf: Seq<char>,
    out: Seq<Instruction>,
)
    ensures
        ({
            let end = parser_run(s, st, buf, out);
            end.2.len() >= out.len() && (end.2 == out ==> end.1 + pending_chars(end.0) =~= buf
                + pending_chars(st) + s)
        }),
    decreases s.len(),
{
    if s.len() == 0 {
        assert(buf + pending_chars(st) + s =~= buf + pending_chars(st));
    } else {
        let c = s[0];
        let next = parser_step(st, buf, out, c);
        lemma_step_no_emit(st, buf, out, c);
        lemma_no_emit_reconstruct(s.drop_first(), next.0, next.1, next.2);
        let end = parser_run(s, st, buf, out);
        assert(next.2.len() >= out.len());
        if end.2 == out {
            assert(next.2 == out);
            // the step emitted nothing, so it moved the consumed character
            // into the buffer or the pending token verbatim
            assert(buf + pending_chars(st) + seq![c] + s.drop_first() =~= buf + pending_chars(st)
                + s);
        }
    }
}

/// Idempotent degradation: when a whole input drives the parser through only
/// abandoned (malformed) tokens — no style push or pop, no placeholder, and
/// no token left half-read at the end — the result is exactly one `AddText`
/// holding the entire input unchanged.
pub proof fn lemma_malformed_input_degrades_to_text(s: Seq<char>)
    requires
        s.len() > 0,
        ({
            let end = parser_run(s, ParserStateView::Text, Seq::empty(), Seq::empty());
            end.0 is Text && end.2 == Seq::<Instruction>::empty()
        }),
    ensures
        parse_spec(s) == seq![Instruction::AddText(s)],
{
    lemma_no_emit_reconstruct(s, ParserStateView::Text, Seq::empty(), Seq::empty());
    let end = parser_run(s, ParserStateView::Text, Seq::empty(), Seq::empty());
    assert(end.1 =~= Seq::<char>::empty() + Seq::<char>::empty() + s);
    assert(end.1 =~= s);
    assert(parse_spec(s) =~= end.2.push(Instruction::AddText(s)));
    assert(Seq::<Instruction>::empty().push(Instruction::AddText(s)) =~= seq![
        Instruction::AddText(s),
    ]);
}

} // verus!
