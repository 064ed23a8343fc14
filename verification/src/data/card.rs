//! One card: an identifier plus a flat field map, immutable after load, and
//! the rules for building cards out of raw tabular records.
use vstd::prelude::*;

use crate::strings::chars_to_string;
use crate::strings::is_ascii_space;
use crate::strings::is_ascii_space_exec;
use crate::strings::is_digit;
use crate::strings::str_eq;
use crate::strings::str_to_chars;
use crate::strings::substring;
use crate::strings::parse_unsigned;
use crate::strings::unsigned_decimal;
use crate::templates::bindings_map;

verus! {

/// One data record: a unique identifier and its fields. A later field with
/// the same name shadows an earlier one, as `bindings_map` describes.
#[derive(PartialEq, Eq, Debug)]
pub struct Card {
    pub id: String,
    pub fields: Vec<(String, String)>,
}

proof fn lemma_bindings_found(s: Seq<(String, String)>, j: int, k: Seq<char>)
    requires
        0 <= j < s.len(),
        s[j].0@ == k,
        forall|l: int| j < l < s.len() ==> (#[trigger] s[l]).0@ != k,
    ensures
        bindings_map(s).contains_key(k),
        bindings_map(s)[k] == s[j].1@,
    decreases s.len(),
{
    if j == s.len() - 1 {
    } else {
        lemma_bindings_found(s.drop_last(), j, k);
    }
}

proof fn lemma_bindings_absent(s: Seq<(String, String)>, k: Seq<char>)
    requires
        forall|l: int| 0 <= l < s.len() ==> (#[trigger] s[l]).0@ != k,
    ensures
        !bindings_map(s).contains_key(k),
    decreases s.len(),
{
    if s.len() > 0 {
        lemma_bindings_absent(s.drop_last(), k);
    }
}

impl Card {
    /// A fresh card with no fields.
    pub fn new(id: String) -> (r: Card)
        ensures
            r.id == id,
            r.fields@ =~= Seq::<(String, String)>::empty(),
    {
        Card { id, fields: Vec::new() }
    }

    /// Adds one field; a repeated name shadows the earlier value.
    pub fn set_field(&mut self, name: String, value: String)
        ensures
            final(self).id == old(self).id,
            final(self).fields@ == old(self).fields@.push((name, value)),
    {
        self.fields.push((name, value));
    }

    /// The value of the named field, under the shadowing rule.
    pub fn field(&self, name: &str) -> (r: Option<&String>)
        ensures
            match r {
                Some(v) => bindings_map(self.fields@).contains_key(name@) && v@ == bindings_map(
                    self.fields@,
                )[name@],
                None => !bindings_map(self.fields@).contains_key(name@),
            },
    {
        let mut i = self.fields.len();
        while i > 0
            invariant
                i <= self.fields@.len(),
                forall|l: int|
                    i <= l < self.fields@.len() ==> (#[trigger] self.fields@[l]).0@ != name@,
            decreases i,
        {
            i = i - 1;
            if str_eq(self.fields[i].0.as_str(), name) {
                proof {
                    lemma_bindings_found(self.fields@, i as int, name@);
                }
                return Some(&self.fields[i].1);
            }
        }
        proof {
            lemma_bindings_absent(self.fields@, name@);
        }
        None
    }

    /// The layout this card asks for: its `layout` field, with a blank value
    /// reading the same as no value.
    pub fn layout_name(&self) -> (r: Option<String>)
        ensures
            match r {
                Some(v) => bindings_map(self.fields@).contains_key("layout"@) && v@ == bindings_map(
                    self.fields@,
                )["layout"@] && v@.len() > 0,
                None => !bindings_map(self.fields@).contains_key("layout"@) || bindings_map(
                    self.fields@,
                )["layout"@].len() == 0,
            },
    {
        match self.field("layout") {
            Some(v) => {
                if v.as_str().unicode_len() > 0 {
                    Some(v.clone())
                } else {
                    None
                }
            },
            None => None,
        }
    }

    /// The template-binding context of this card: its identifier under the
    /// name `id`, then every field, in order.
    pub fn bindings(&self) -> (r: Vec<(String, String)>)
        ensures
            r@.len() == self.fields@.len() + 1,
            r@[0].0@ == "id"@ && r@[0].1@ == self.id@,
            forall|j: int|
                0 <= j < self.fields@.len() ==> (#[trigger] r@[j + 1]).0@ == self.fields@[j].0@ && r@[
                    j + 1
                ].1@ == self.fields@[j].1@,
    {
        let mut r: Vec<(String, String)> = Vec::new();
        r.push((String::from_str("id"), self.id.clone()));
        let mut i: usize = 0;
        while i < self.fields.len()
            invariant
                i <= self.fields@.len(),
                r@.len() == i + 1,
                r@[0].0@ == "id"@ && r@[0].1@ == self.id@,
                forall|j: int|
                    0 <= j < i ==> (#[trigger] r@[j + 1]).0@ == self.fields@[j].0@ && r@[j
                        + 1].1@ == self.fields@[j].1@,
            decreases self.fields@.len() - i,
        {
            r.push((self.fields[i].0.clone(), self.fields[i].1.clone()));
            i += 1;
        }
        r
    }
}

#[derive(PartialEq, Eq, Debug)]
pub enum CardLoadingError {
    EmptyWorkbook(String),
}

/// The character a decimal digit value prints as.
pub open spec fn digit_char(d: int) -> char {
    ((48 + d) as u32) as char
}

/// The decimal digits of `n`, most significant first.
pub open spec fn dec_digits(n: int) -> Seq<char>
    decreases n,
{
    if n < 10 {
        seq![digit_char(if n >= 0 {
            n
        } else {
            0
        })]
    } else {
        dec_digits(n / 10).push(digit_char(n % 10))
    }
}

/// The decimal digits of `n`, left-padded with zeros to at least four
/// places.
pub open spec fn padded4(n: int) -> Seq<char> {
    let d = dec_digits(n);
    if d.len() >= 4 {
        d
    } else {
        Seq::new((4 - d.len()) as nat, |i: int| '0') + d
    }
}

fn digit_char_exec(d: u64) -> (r: char)
    requires
        d < 10,
    ensures
        r == digit_char(d as int),
{
    match d {
        0 => '0',
        1 => '1',
        2 => '2',
        3 => '3',
        4 => '4',
        5 => '5',
        6 => '6',
        7 => '7',
        8 => '8',
        _ => '9',
    }
}

fn dec_string(n: u64) -> (r: Vec<char>)
    ensures
        r@ == dec_digits(n as int),
    decreases n,
{
    if n < 10 {
        let mut v: Vec<char> = Vec::new();
        v.push(digit_char_exec(n));
        proof {
            assert(v@ =~= dec_digits(n as int));
        }
        v
    } else {
        let mut v = dec_string(n / 10);
        v.push(digit_char_exec(n % 10));
        v
    }
}

/// A synthesized identifier for the record at `idx` (zero-based) of the
/// given source document: the one-based index, zero-padded to four places,
/// prefixed with the document name and an underscore when one is known.
pub fn generate_id(idx: usize, set_name: Option<&String>) -> (r: String)
    requires
        idx < usize::MAX,
    ensures
        match set_name {
            Some(s) => r@ == s@ + seq!['_'] + padded4(idx + 1),
            None => r@ == padded4(idx + 1),
        },
{
    let digits = dec_string((idx as u64) + 1);
    let mut padded: Vec<char> = Vec::new();
    let mut pad: usize = 0;
    if digits.len() < 4 {
        pad = 4 - digits.len();
    }
    let mut i: usize = 0;
    while i < pad
        invariant
            i <= pad,
            padded@ =~= Seq::new(i as nat, |k: int| '0'),
        decreases pad - i,
    {
        padded.push('0');
        proof {
            assert(padded@ =~= Seq::new((i + 1) as nat, |k: int| '0'));
        }
        i += 1;
    }
    let mut j: usize = 0;
    while j < digits.len()
        invariant
            j <= digits@.len(),
            padded@ =~= Seq::new(pad as nat, |k: int| '0') + digits@.subrange(0, j as int),
        decreases digits@.len() - j,
    {
        padded.push(digits[j]);
        proof {
            assert(padded@ =~= Seq::new(pad as nat, |k: int| '0') + digits@.subrange(
                0,
                j + 1 as int,
            ));
        }
        j += 1;
    }
    proof {
        assert(digits@.subrange(0, digits@.len() as int) =~= digits@);
    }
    let tail = chars_to_string(&padded);
    proof {
        if digits@.len() >= 4 {
            assert(pad == 0);
            assert(Seq::new(0nat, |k: int| '0') + digits@ =~= digits@);
            assert(tail@ =~= padded4(idx + 1));
        } else {
            assert(tail@ =~= padded4(idx + 1));
        }
    }
    match set_name {
        Some(s) => {
            let mut out = s.clone();
            out.push('_');
            out.append(tail.as_str());
            out
        },
        None => tail,
    }
}

/// Builds a card from one raw record: an explicit non-blank `id` field
/// names the card and leaves the field map; otherwise an identifier is
/// synthesized from the document name and the record's position.
pub fn card_from_record(idx: usize, doc_name: Option<&String>, fields: Vec<(String, String)>) -> (r:
    Card)
    requires
        idx < usize::MAX,
    ensures
        r.fields@ == fields@.filter(|p: (String, String)| p.0@ != "id"@),
        ({
            let m = bindings_map(fields@);
            if m.contains_key("id"@) && m["id"@].len() > 0 {
                r.id@ == m["id"@]
            } else {
                match doc_name {
                    Some(s) => r.id@ == s@ + seq!['_'] + padded4(idx + 1),
                    None => r.id@ == padded4(idx + 1),
                }
            }
        }),
{
    let explicit = {
        let mut found: Option<String> = None;
        let mut i = fields.len();
        while i > 0 && found.is_none()
            invariant
                i <= fields@.len(),
                found is None ==> forall|l: int|
                    i <= l < fields@.len() ==> (#[trigger] fields@[l]).0@ != "id"@,
                found matches Some(v) ==> bindings_map(fields@).contains_key("id"@) && v@
                    == bindings_map(fields@)["id"@],
            decreases i,
        {
            i = i - 1;
            if str_eq(fields[i].0.as_str(), "id") {
                proof {
                    lemma_bindings_found(fields@, i as int, "id"@);
                }
                found = Some(fields[i].1.clone());
            }
        }
        proof {
            if found is None {
                lemma_bindings_absent(fields@, "id"@);
            }
        }
        found
    };
    let id: String = match explicit {
        Some(v) => {
            if v.as_str().unicode_len() > 0 {
                v
            } else {
                generate_id(idx, doc_name)
            }
        },
        None => generate_id(idx, doc_name),
    };
    let mut kept: Vec<(String, String)> = Vec::new();
    let mut fs = fields;
    let ghost all = fs@;
    proof {
        reveal(Seq::filter);
        assert(all.subrange(0, 0).filter(|p: (String, String)| p.0@ != "id"@) =~= Seq::<(
            String,
            String,
        )>::empty());
    }
    while fs.len() > 0
        invariant
            fs@.len() <= all.len(),
            fs@ == all.subrange(all.len() - fs@.len(), all.len() as int),
            kept@ == all.subrange(0, all.len() - fs@.len()).filter(
                |p: (String, String)| p.0@ != "id"@,
            ),
        decreases fs@.len(),
    {
        let ghost pos = all.len() - fs@.len();
        proof {
            reveal(Seq::filter);
            assert(all.subrange(0, pos + 1).drop_last() =~= all.subrange(0, pos));
            assert(all.subrange(0, pos + 1).last() == all[pos]);
            assert(fs@[0] == all[pos]);
        }
        let is_id = str_eq(fs[0].0.as_str(), "id");
        let pair = fs.remove(0);
        if !is_id {
            kept.push(pair);
        }
        proof {
            assert(fs@ =~= all.subrange(all.len() - fs@.len(), all.len() as int));
            assert(kept@ =~= all.subrange(0, pos + 1).filter(
                |p: (String, String)| p.0@ != "id"@,
            ));
        }
    }
    proof {
        reveal(Seq::filter);
        assert(all.subrange(0, all.len() as int) =~= all);
    }
    Card { id, fields: kept }
}

/// One line of a selection list: a bare identifier, a quantity and an
/// identifier, or a malformed counted line.
pub enum DeckLine {
    Single(String),
    Counted(u64, String),
    Invalid(String),
}

/// How many leading characters of `s` are decimal digits.
pub open spec fn digits_end(s: Seq<char>) -> int
    decreases s.len(),
{
    if s.len() > 0 && is_digit(s[0]) {
        1 + digits_end(s.drop_first())
    } else {
        0
    }
}

/// The end of the whitespace run starting at `from`.
pub open spec fn ws_end(s: Seq<char>, from: int) -> int
    decreases s.len() - from,
{
    if 0 <= from < s.len() && is_ascii_space(s[from]) {
        ws_end(s, from + 1)
    } else {
        from
    }
}

proof fn lemma_digits_end(s: Seq<char>, i: int)
    requires
        0 <= i <= s.len(),
        forall|j: int| 0 <= j < i ==> is_digit(#[trigger] s[j]),
        i < s.len() ==> !is_digit(s[i]),
    ensures
        digits_end(s) == i,
    decreases i,
{
    if i == 0 {
    } else {
        lemma_digits_end(s.drop_first(), i - 1);
    }
}

proof fn lemma_ws_end(s: Seq<char>, from: int, j: int)
    requires
        0 <= from <= j <= s.len(),
        forall|l: int| from <= l < j ==> is_ascii_space(#[trigger] s[l]),
        j < s.len() ==> !is_ascii_space(s[j]),
    ensures
        ws_end(s, from) == j,
    decreases j - from,
{
    if from == j {
    } else {
        lemma_ws_end(s, from + 1, j);
    }
}

/// A counted line: one or more digits, then one or more whitespace
/// characters, then a non-empty identifier.
pub open spec fn deck_line_counted(s: Seq<char>) -> bool {
    let i = digits_end(s);
    let j = ws_end(s, i);
    0 < i < s.len() && i < j < s.len()
}

/// Reads one selection-list line. A line of the form `<quantity> <id>` —
/// digits, whitespace, then anything — names that many copies of the
/// identifier; any other line is a single bare identifier. A counted line
/// whose quantity does not fit the supported range is rejected.
pub fn parse_deck_line(line: &str) -> (r: DeckLine)
    ensures
        !deck_line_counted(line@) ==> (r matches DeckLine::Single(t) && t@ == line@),
        deck_line_counted(line@) ==> (match unsigned_decimal(
            line@.subrange(0, digits_end(line@)),
            0xffff_ffff,
        ) {
            Some(v) => r matches DeckLine::Counted(q, id) && q == v && id@ == line@.subrange(
                ws_end(line@, digits_end(line@)),
                line@.len() as int,
            ),
            None => r matches DeckLine::Invalid(t) && t@ == line@,
        }),
{
    let cs = str_to_chars(line);
    let n = cs.len();
    let mut i: usize = 0;
    while i < n && '0' <= cs[i] && cs[i] <= '9'
        invariant
            cs@ == line@,
            n == cs@.len(),
            i <= n,
            forall|j: int| 0 <= j < i ==> is_digit(#[trigger] cs@[j]),
        decreases n - i,
    {
        i += 1;
    }
    proof {
        lemma_digits_end(cs@, i as int);
    }
    if i == 0 || i == n {
        return DeckLine::Single(String::from_str(line));
    }
    let mut j: usize = i;
    while j < n && is_ascii_space_exec(cs[j])
        invariant
            cs@ == line@,
            i <= j <= n,
            n == cs@.len(),
            forall|l: int| i <= l < j ==> is_ascii_space(#[trigger] cs@[l]),
        decreases n - j,
    {
        j += 1;
    }
    proof {
        lemma_ws_end(cs@, i as int, j as int);
    }
    if j == i || j == n {
        return DeckLine::Single(String::from_str(line));
    }
    match parse_unsigned(&cs, 0, i, 0xffff_ffff) {
        Some(qty) => DeckLine::Counted(qty, substring(&cs, j, n)),
        None => DeckLine::Invalid(String::from_str(line)),
    }
}

} // verus!
