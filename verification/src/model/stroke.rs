//! Stroke styling and the dash-pattern mini-language: `.`/`-`/space strings
//! compile to segment-length lists by run-length encoding, with dot runs
//! weighing 1 per character, dash runs 3, and spaces closing a segment.
use vstd::prelude::*;

use crate::model::color::ColorRef;
use crate::strings::str_eq;
use crate::strings::str_to_chars;

verus! {

/// A stroke style: line width, color reference, and dash pattern.
#[derive(PartialEq, Eq, Debug)]
pub struct Stroke {
    pub width: usize,
    pub color: ColorRef,
    pub pattern: DashPattern,
}

/// Either an unbroken line or a list of alternating drawn/skipped segment
/// lengths, beginning with a drawn segment.
#[derive(PartialEq, Eq, Debug)]
pub enum DashPattern {
    Solid,
    Dashed(Vec<u64>),
}

/// The mathematical value of a dash pattern: solid, or its segment lengths.
pub enum DashPatternView {
    Solid,
    Dashed(Seq<int>),
}

impl View for DashPattern {
    type V = DashPatternView;

    open spec fn view(&self) -> DashPatternView {
        match self {
            DashPattern::Solid => DashPatternView::Solid,
            DashPattern::Dashed(v) => DashPatternView::Dashed(segs_view(v@)),
        }
    }
}

impl Clone for DashPattern {
    fn clone(&self) -> (r: Self)
        ensures
            r@ == self@,
    {
        match self {
            DashPattern::Solid => DashPattern::Solid,
            DashPattern::Dashed(v) => {
                let w = v.clone();
                proof {
                    assert(w@ =~= v@);
                }
                DashPattern::Dashed(w)
            },
        }
    }
}

impl Default for DashPattern {
    fn default() -> (r: Self)
        ensures
            r == DashPattern::Solid,
    {
        DashPattern::Solid
    }
}

#[derive(PartialEq, Eq, Debug)]
pub enum StrokeError {
    InvalidCharacter { character: char, dash_spec: String, offset: usize },
}

/// The characters the dash mini-language accepts.
pub open spec fn dash_char_ok(c: char) -> bool {
    c == '.' || c == '-' || c == ' '
}

/// Every character of `s` belongs to the dash mini-language.
pub open spec fn dash_input_ok(s: Seq<char>) -> bool {
    forall|i: int| 0 <= i < s.len() ==> dash_char_ok(s[i])
}

/// The index of the first character outside the dash mini-language.
pub open spec fn dash_first_invalid(s: Seq<char>) -> int
    decreases s.len(),
{
    if s.len() == 0 {
        0
    } else if !dash_char_ok(s[0]) {
        0
    } else {
        1 + dash_first_invalid(s.drop_first())
    }
}

/// The weight one drawn character contributes to its segment.
pub open spec fn dash_weight(c: char) -> int {
    if c == '-' {
        3
    } else {
        1
    }
}

/// One run-length decoding step at a time, carrying whether a drawn run is
/// being read, the length gathered so far, and the segments already closed.
pub open spec fn dash_decode_loop(s: Seq<char>, drawn: bool, current: int, acc: Seq<int>) -> Seq<
    int,
>
    decreases s.len(),
{
    if s.len() == 0 {
        acc.push(current)
    } else {
        let c = s[0];
        let rest = s.drop_first();
        if c == ' ' {
            if drawn {
                dash_decode_loop(rest, false, 1, acc.push(current))
            } else {
                dash_decode_loop(rest, false, current + 1, acc)
            }
        } else {
            if drawn {
                dash_decode_loop(rest, true, current + dash_weight(c), acc)
            } else {
                dash_decode_loop(rest, true, dash_weight(c), acc.push(current))
            }
        }
    }
}

/// The segment-length sequence a dash string decodes to.
pub open spec fn dash_decode(s: Seq<char>) -> Seq<int> {
    dash_decode_loop(s, true, 0, Seq::empty())
}

/// What parsing a dash specification yields: the named presets, a run-length
/// decode of a well-formed custom string, or the offset of the first bad
/// character.
pub open spec fn dash_parse(s: Seq<char>) -> Result<Seq<int>, int> {
    if s == "dotted"@ {
        Ok(seq![1int, 1int])
    } else if s == "dashed"@ {
        Ok(seq![3int, 1int])
    } else if dash_input_ok(s) {
        Ok(dash_decode(s))
    } else {
        Err(dash_first_invalid(s))
    }
}

/// The view of a compiled pattern as mathematical segment lengths.
pub open spec fn segs_view(v: Seq<u64>) -> Seq<int> {
    v.map_values(|w: u64| w as int)
}

/// A segment list shaped as the decoder produces it: at least one segment,
/// the first of length zero or more, every later one of positive length.
pub open spec fn pattern_wf(p: Seq<int>) -> bool {
    p.len() >= 1 && p[0] >= 0 && (forall|i: int| 1 <= i < p.len() ==> p[i] >= 1)
}

/// `n` copies of `c` (empty when `n` is negative).
pub open spec fn repeat_char(c: char, n: int) -> Seq<char> {
    Seq::new(if n >= 0 { n as nat } else { 0 }, |i: int| c)
}

/// Re-encodes segment lengths by the decoder's own run-length rule: drawn
/// segments as dots (weight one each), gaps as one space per unit,
/// alternating and starting with a drawn segment.
pub open spec fn dash_encode_from(p: Seq<int>, i: int) -> Seq<char>
    decreases p.len() - i,
{
    if i < 0 || i >= p.len() {
        Seq::empty()
    } else {
        repeat_char(if i % 2 == 0 { '.' } else { ' ' }, p[i]) + dash_encode_from(p, i + 1)
    }
}

pub open spec fn dash_encode(p: Seq<int>) -> Seq<char> {
    dash_encode_from(p, 0)
}

proof fn lemma_decode_loop_wf(s: Seq<char>, drawn: bool, current: int, acc: Seq<int>)
    requires
        forall|i: int| 1 <= i < acc.len() ==> acc[i] >= 1,
        acc.len() > 0 ==> acc[0] >= 0,
        acc.len() > 0 ==> current >= 1,
        !drawn ==> current >= 1,
        current >= 0,
    ensures
        pattern_wf(dash_decode_loop(s, drawn, current, acc)),
    decreases s.len(),
{
    if s.len() == 0 {
    } else {
        let c = s[0];
        let rest = s.drop_first();
        if c == ' ' {
            if drawn {
                lemma_decode_loop_wf(rest, false, 1, acc.push(current));
            } else {
                lemma_decode_loop_wf(rest, false, current + 1, acc);
            }
        } else {
            if drawn {
                lemma_decode_loop_wf(rest, true, current + dash_weight(c), acc);
            } else {
                lemma_decode_loop_wf(rest, true, dash_weight(c), acc.push(current));
            }
        }
    }
}

/// Whatever the input, the decoder's output is well shaped.
pub proof fn lemma_decode_wf(s: Seq<char>)
    ensures
        pattern_wf(dash_decode(s)),
{
    lemma_decode_loop_wf(s, true, 0, Seq::empty());
}

proof fn lemma_decode_dots(n: int, rest: Seq<char>, current: int, acc: Seq<int>)
    requires
        n >= 0,
    ensures
        dash_decode_loop(repeat_char('.', n) + rest, true, current, acc) == dash_decode_loop(
            rest,
            true,
            current + n,
            acc,
        ),
    decreases n,
{
    if n == 0 {
        assert(repeat_char('.', 0) + rest =~= rest);
    } else {
        let s = repeat_char('.', n) + rest;
        assert(s[0] == '.');
        assert(s.drop_first() =~= repeat_char('.', n - 1) + rest);
        lemma_decode_dots(n - 1, rest, current + 1, acc);
    }
}

proof fn lemma_decode_spaces(n: int, rest: Seq<char>, current: int, acc: Seq<int>)
    requires
        n >= 0,
    ensures
        dash_decode_loop(repeat_char(' ', n) + rest, false, current, acc) == dash_decode_loop(
            rest,
            false,
            current + n,
            acc,
        ),
    decreases n,
{
    if n == 0 {
        assert(repeat_char(' ', 0) + rest =~= rest);
    } else {
        let s = repeat_char(' ', n) + rest;
        assert(s[0] == ' ');
        assert(s.drop_first() =~= repeat_char(' ', n - 1) + rest);
        lemma_decode_spaces(n - 1, rest, current + 1, acc);
    }
}

proof fn lemma_decode_encode_from(p: Seq<int>, i: int, current: int, acc: Seq<int>)
    requires
        forall|j: int| 1 <= j < p.len() ==> p[j] >= 1,
        0 <= i < p.len(),
        i % 2 == 0,
        p[i] >= 0,
    ensures
        dash_decode_loop(dash_encode_from(p, i), true, current, acc) == acc + seq![current + p[i]]
            + p.subrange(i + 1, p.len() as int),
    decreases p.len() - i,
{
    let len = p.len() as int;
    lemma_decode_dots(p[i], dash_encode_from(p, i + 1), current, acc);
    if i + 1 >= len {
        assert(dash_encode_from(p, i + 1) =~= Seq::<char>::empty());
        assert(acc + seq![current + p[i]] + p.subrange(i + 1, len) =~= acc.push(current + p[i]));
    } else {
        let n = p[i + 1];
        let rest2 = dash_encode_from(p, i + 2);
        let acc1 = acc.push(current + p[i]);
        assert(dash_encode_from(p, i + 1) =~= repeat_char(' ', n) + rest2);
        assert((repeat_char(' ', n) + rest2)[0] == ' ');
        assert((repeat_char(' ', n) + rest2).drop_first() =~= repeat_char(' ', n - 1) + rest2);
        lemma_decode_spaces(n - 1, rest2, 1, acc1);
        // the decode of the whole tail now stands at (rest2, gap mode, n, acc1)
        if i + 2 >= len {
            assert(rest2 =~= Seq::<char>::empty());
            assert(acc + seq![current + p[i]] + p.subrange(i + 1, len) =~= acc1.push(n));
        } else {
            let m = p[i + 2];
            let rest3 = dash_encode_from(p, i + 3);
            assert(rest2 =~= repeat_char('.', m) + rest3);
            assert((repeat_char('.', m) + rest3)[0] == '.');
            assert((repeat_char('.', m) + rest3).drop_first() =~= repeat_char('.', m - 1) + rest3);
            let acc2 = acc1.push(n);
            lemma_decode_dots(m - 1, rest3, 1, acc2);
            lemma_decode_dots(m, rest3, 0, acc2);
            lemma_decode_encode_from(p, i + 2, 0, acc2);
            assert(acc + seq![current + p[i]] + p.subrange(i + 1, len) =~= acc2 + seq![0 + p[i + 2]]
                + p.subrange(i + 3, len));
        }
    }
}

/// Round trip of the dash mini-language: decoding any string over the
/// accepted characters, re-encoding the segment lengths by the same
/// run-length rule, and decoding once more yields the same segment lengths.
pub proof fn lemma_dash_round_trip(s: Seq<char>)
    requires
        dash_input_ok(s),
    ensures
        dash_decode(dash_encode(dash_decode(s))) == dash_decode(s),
{
    let p = dash_decode(s);
    lemma_decode_wf(s);
    lemma_decode_encode_from(p, 0, 0, Seq::empty());
    assert(Seq::empty() + seq![0 + p[0]] + p.subrange(1, p.len() as int) =~= p);
}

proof fn lemma_first_invalid(s: Seq<char>, i: int)
    requires
        0 <= i < s.len(),
        !dash_char_ok(s[i]),
        forall|j: int| 0 <= j < i ==> dash_char_ok(s[j]),
    ensures
        dash_first_invalid(s) == i,
    decreases i,
{
    if i == 0 {
    } else {
        assert(dash_char_ok(s[0]));
        lemma_first_invalid(s.drop_first(), i - 1);
    }
}

impl DashPattern {
    /// Parses a dash specification: the presets `dotted` and `dashed`, or the
    /// `.`/`-`/space mini-language; any other character is rejected with its
    /// offset. The length bound keeps the segment arithmetic inside the
    /// machine's integer range.
    pub fn from_str(s: &str) -> (r: Result<DashPattern, StrokeError>)
        requires
            4 * s@.len() <= usize::MAX,
        ensures
            match dash_parse(s@) {
                Ok(p) => r matches Ok(d) && d matches DashPattern::Dashed(v) && segs_view(v@) == p,
                Err(off) => r matches Err(e) && e matches StrokeError::InvalidCharacter {
                    character,
                    dash_spec,
                    offset,
                } && character == s@[off] && dash_spec@ == s@ && offset == off,
            },
    {
        if str_eq(s, "dotted") {
            let v: Vec<u64> = vec![1, 1];
            proof {
                assert(segs_view(v@) =~= seq![1int, 1int]);
            }
            return Ok(DashPattern::Dashed(v));
        }
        if str_eq(s, "dashed") {
            let v: Vec<u64> = vec![3, 1];
            proof {
                assert(segs_view(v@) =~= seq![3int, 1int]);
            }
            return Ok(DashPattern::Dashed(v));
        }

        let cs = str_to_chars(s);
        let n = cs.len();
        let mut pattern: Vec<u64> = Vec::new();
        let mut drawn: bool = true;
        let mut current: u64 = 0;
        let mut i: usize = 0;

        proof {
            assert(s@.subrange(0, n as int) =~= s@);
            assert(segs_view(pattern@) =~= Seq::<int>::empty());
        }
        while i < n
            invariant
                s@ != "dotted"@,
                s@ != "dashed"@,
                cs@ == s@,
                n == s@.len(),
                4 * n <= usize::MAX,
                i <= n,
                current <= 3 * (i + 1),
                forall|j: int| 0 <= j < i ==> dash_char_ok(s@[j]),
                dash_decode_loop(s@.subrange(i as int, n as int), drawn, current as int, segs_view(pattern@))
                    == dash_decode(s@),
            decreases n - i,
        {
            let c = cs[i];
            let ghost prev_drawn = drawn;
            let ghost prev_cur = current as int;
            let ghost prev_segs = segs_view(pattern@);
            proof {
                assert(s@.subrange(i as int, n as int).drop_first() =~= s@.subrange(
                    i + 1 as int,
                    n as int,
                ));
                assert(s@.subrange(i as int, n as int)[0] == s@[i as int]);
                assert(c == s@[i as int]);
            }
            if c == '.' {
                if drawn {
                    current = current + 1;
                } else {
                    pattern.push(current);
                    current = 1;
                    drawn = true;
                }
            } else if c == '-' {
                if drawn {
                    current = current + 3;
                } else {
                    pattern.push(current);
                    current = 3;
                    drawn = true;
                }
            } else if c == ' ' {
                if drawn {
                    pattern.push(current);
                    current = 1;
                    drawn = false;
                } else {
                    current = current + 1;
                }
            } else {
                proof {
                    lemma_first_invalid(s@, i as int);
                }
                return Err(
                    StrokeError::InvalidCharacter {
                        character: c,
                        dash_spec: String::from_str(s),
                        offset: i,
                    },
                );
            }
            proof {
                if prev_segs != segs_view(pattern@) {
                    assert(segs_view(pattern@) =~= prev_segs.push(pattern@.last() as int));
                }
                assert(dash_decode_loop(
                    s@.subrange(i as int, n as int),
                    prev_drawn,
                    prev_cur,
                    prev_segs,
                ) == dash_decode_loop(
                    s@.subrange(i + 1 as int, n as int),
                    drawn,
                    current as int,
                    segs_view(pattern@),
                ));
            }
            i += 1;
        }

        pattern.push(current);
        proof {
            assert(segs_view(pattern@) =~= segs_view(pattern@.drop_last()).push(current as int));
            assert(s@.subrange(n as int, n as int).len() == 0);
        }
        Ok(DashPattern::Dashed(pattern))
    }
}

} // verus!
