//! The durable comment record, its serialized entry form, and the merge
//! that appends one entry to a data file.
//!
//! An entry is one block of a YAML sequence: each field on its own line,
//! string fields double-quoted with backslash escapes for the backslash,
//! the double quote, newline and carriage return. Merging appends the new
//! entry's serialized form to the existing content byte for byte; prior
//! entries are never reparsed or reformatted.

use vstd::prelude::*;
use vstd::string::StringExecFns;
use crate::text::{
    chars_to_string, decimal_chars, digits_value, is_digit, spec_decimal, str_chars,
};

verus! {

/// The durable record appended to a data file: the client-supplied fields
/// plus the generated identifier and timestamp.
#[derive(Debug)]
pub struct Comment {
    pub id: String,
    pub message: String,
    pub name: String,
    pub url: String,
    pub date: u64,
}

/// The mathematical content of a comment.
pub struct CommentData {
    pub id: Seq<char>,
    pub message: Seq<char>,
    pub name: Seq<char>,
    pub url: Seq<char>,
    pub date: u64,
}

impl View for Comment {
    type V = CommentData;

    open spec fn view(&self) -> CommentData {
        CommentData {
            id: self.id@,
            message: self.message@,
            name: self.name@,
            url: self.url@,
            date: self.date,
        }
    }
}

/// How one character is written inside a quoted scalar.
pub open spec fn escape_char(c: char) -> Seq<char> {
    if c == '\\' {
        seq!['\\', '\\']
    } else if c == '"' {
        seq!['\\', '"']
    } else if c == '\n' {
        seq!['\\', 'n']
    } else if c == '\r' {
        seq!['\\', 'r']
    } else {
        seq![c]
    }
}

/// The escaped form of a string.
pub open spec fn spec_escape(s: Seq<char>) -> Seq<char>
    decreases s.len(),
{
    if s.len() == 0 {
        Seq::empty()
    } else {
        escape_char(s[0]) + spec_escape(s.drop_first())
    }
}

/// The character denoted by a backslash escape, if the escape is one the
/// format uses.
pub open spec fn unescape_char(c: char) -> Option<char> {
    if c == '\\' {
        Some('\\')
    } else if c == '"' {
        Some('"')
    } else if c == 'n' {
        Some('\n')
    } else if c == 'r' {
        Some('\r')
    } else {
        None
    }
}

/// The opening of an entry, up to and including the id's opening quote.
pub open spec fn lit_id() -> Seq<char> {
    "- id: \""@
}

/// From the id's closing quote to the message's opening quote.
pub open spec fn lit_message() -> Seq<char> {
    "\"\n  message: \""@
}

/// From the message's closing quote to the name's opening quote.
pub open spec fn lit_name() -> Seq<char> {
    "\"\n  name: \""@
}

/// From the name's closing quote to the url's opening quote.
pub open spec fn lit_url() -> Seq<char> {
    "\"\n  url: \""@
}

/// From the url's closing quote to the start of the date's digits.
pub open spec fn lit_date() -> Seq<char> {
    "\"\n  date: "@
}

/// The serialized form of one comment: one block of a YAML sequence.
pub open spec fn spec_entry(c: CommentData) -> Seq<char> {
    lit_id() + spec_escape(c.id) + lit_message() + spec_escape(c.message) + lit_name()
        + spec_escape(c.name) + lit_url() + spec_escape(c.url) + lit_date() + spec_decimal(
        c.date as nat,
    ) + seq!['\n']
}

/// The serialized form of a sequence of comments: their entries in order.
pub open spec fn spec_entries(cs: Seq<CommentData>) -> Seq<char>
    decreases cs.len(),
{
    if cs.len() == 0 {
        Seq::empty()
    } else {
        spec_entry(cs[0]) + spec_entries(cs.drop_first())
    }
}

proof fn lemma_escape_push(s: Seq<char>, c: char)
    ensures
        spec_escape(s.push(c)) == spec_escape(s) + escape_char(c),
    decreases s.len(),
{
    if s.len() == 0 {
        assert(s.push(c)[0] == c);
        assert(s.push(c).drop_first() =~= Seq::<char>::empty());
        assert(spec_escape(Seq::<char>::empty()) == Seq::<char>::empty());
        assert(spec_escape(s.push(c)) == escape_char(c) + Seq::<char>::empty());
        assert(spec_escape(s.push(c)) =~= spec_escape(s) + escape_char(c));
    } else {
        assert(s.push(c).drop_first() =~= s.drop_first().push(c));
        lemma_escape_push(s.drop_first(), c);
        assert(spec_escape(s.push(c)) =~= spec_escape(s) + escape_char(c));
    }
}

/// Escapes a string for inclusion in a quoted scalar.
fn escape_chars(s: &Vec<char>) -> (r: Vec<char>)
    ensures
        r@ == spec_escape(s@),
{
    let mut r: Vec<char> = Vec::new();
    let mut i: usize = 0;
    while i < s.len()
        invariant
            i <= s@.len(),
            r@ == spec_escape(s@.take(i as int)),
        decreases s@.len() - i,
    {
        let c = s[i];
        if c == '\\' {
            r.push('\\');
            r.push('\\');
        } else if c == '"' {
            r.push('\\');
            r.push('"');
        } else if c == '\n' {
            r.push('\\');
            r.push('n');
        } else if c == '\r' {
            r.push('\\');
            r.push('r');
        } else {
            r.push(c);
        }
        proof {
            lemma_escape_push(s@.take(i as int), s@[i as int]);
            assert(s@.take(i as int).push(s@[i as int]) =~= s@.take(i as int + 1));
            assert(r@ =~= spec_escape(s@.take(i as int + 1)));
        }
        i = i + 1;
    }
    proof {
        assert(s@.take(s@.len() as int) =~= s@);
    }
    r
}

/// Appends the characters of a literal to the buffer.
fn append_lit(v: &mut Vec<char>, lit: &str)
    ensures
        final(v)@ == old(v)@ + lit@,
{
    let mut w = str_chars(lit);
    v.append(&mut w);
}

/// Appends the escaped characters of a field to the buffer.
fn append_escaped(v: &mut Vec<char>, field: &str)
    ensures
        final(v)@ == old(v)@ + spec_escape(field@),
{
    let chars = str_chars(field);
    let mut e = escape_chars(&chars);
    v.append(&mut e);
}

/// Serializes one comment as one entry.
pub fn serialize_entry(c: &Comment) -> (r: String)
    ensures
        r@ == spec_entry(c@),
{
    let mut v: Vec<char> = Vec::new();
    append_lit(&mut v, "- id: \"");
    append_escaped(&mut v, c.id.as_str());
    append_lit(&mut v, "\"\n  message: \"");
    append_escaped(&mut v, c.message.as_str());
    append_lit(&mut v, "\"\n  name: \"");
    append_escaped(&mut v, c.name.as_str());
    append_lit(&mut v, "\"\n  url: \"");
    append_escaped(&mut v, c.url.as_str());
    append_lit(&mut v, "\"\n  date: ");
    let mut d = decimal_chars(c.date);
    v.append(&mut d);
    v.push('\n');
    proof {
        assert(v@ =~= spec_entry(c@));
    }
    chars_to_string(&v)
}

/// Appends the new comment's entry to the existing content. The prior
/// content is preserved byte for byte: nothing of it is reparsed or
/// rewritten.
pub fn merge_entry(baseline: &str, c: &Comment) -> (r: String)
    ensures
        r@ == baseline@ + spec_entry(c@),
{
    let entry = serialize_entry(c);
    baseline.to_owned().concat(entry.as_str())
}

/// Parses a quoted scalar: the characters up to (not including) the next
/// unescaped double quote, with escapes resolved. Fails on an unknown
/// escape, a raw newline, or a missing closing quote. Returns the content
/// and the rest of the input, which still starts with the closing quote.
pub open spec fn spec_unquote(s: Seq<char>) -> Option<(Seq<char>, Seq<char>)>
    decreases s.len(),
{
    if s.len() == 0 {
        None
    } else if s[0] == '"' {
        Some((Seq::empty(), s))
    } else if s[0] == '\\' {
        if s.len() < 2 {
            None
        } else {
            match unescape_char(s[1]) {
                None => None,
                Some(c) => match spec_unquote(s.skip(2)) {
                    None => None,
                    Some((t, r)) => Some((seq![c] + t, r)),
                },
            }
        }
    } else if s[0] == '\n' {
        None
    } else {
        match spec_unquote(s.drop_first()) {
            None => None,
            Some((t, r)) => Some((seq![s[0]] + t, r)),
        }
    }
}

/// Consumes an expected literal from the front of the input.
pub open spec fn spec_expect(s: Seq<char>, lit: Seq<char>) -> Option<Seq<char>> {
    if lit.len() <= s.len() && s.take(lit.len() as int) == lit {
        Some(s.skip(lit.len() as int))
    } else {
        None
    }
}

/// The longest digit prefix of the input, and the rest.
pub open spec fn spec_take_digits(s: Seq<char>) -> (Seq<char>, Seq<char>)
    decreases s.len(),
{
    if s.len() == 0 || !is_digit(s[0]) {
        (Seq::empty(), s)
    } else {
        let (d, r) = spec_take_digits(s.drop_first());
        (seq![s[0]] + d, r)
    }
}

/// Parses the date: at least one digit, a value that fits in a `u64`, and
/// a terminating newline, which is consumed.
pub open spec fn spec_parse_date(s: Seq<char>) -> Option<(u64, Seq<char>)> {
    let (d, r) = spec_take_digits(s);
    if d.len() >= 1 && r.len() >= 1 && r[0] == '\n' && digits_value(d) <= u64::MAX {
        Some((digits_value(d) as u64, r.drop_first()))
    } else {
        None
    }
}

/// Parses one entry from the front of the input: the comment it denotes
/// and the rest of the input.
pub open spec fn spec_parse_entry(s: Seq<char>) -> Option<(CommentData, Seq<char>)> {
    match spec_expect(s, lit_id()) {
        None => None,
        Some(s1) => match spec_unquote(s1) {
            None => None,
            Some((id, s2)) => match spec_expect(s2, lit_message()) {
                None => None,
                Some(s3) => match spec_unquote(s3) {
                    None => None,
                    Some((message, s4)) => match spec_expect(s4, lit_name()) {
                        None => None,
                        Some(s5) => match spec_unquote(s5) {
                            None => None,
                            Some((name, s6)) => match spec_expect(s6, lit_url()) {
                                None => None,
                                Some(s7) => match spec_unquote(s7) {
                                    None => None,
                                    Some((url, s8)) => match spec_expect(s8, lit_date()) {
                                        None => None,
                                        Some(s9) => match spec_parse_date(s9) {
                                            None => None,
                                            Some((date, rest)) => Some(
                                                (CommentData { id, message, name, url, date }, rest),
                                            ),
                                        },
                                    },
                                },
                            },
                        },
                    },
                },
            },
        },
    }
}

/// Parses a whole data file: a sequence of entries covering all of it.
pub open spec fn spec_parse(s: Seq<char>) -> Option<Seq<CommentData>>
    decreases s.len(),
{
    if s.len() == 0 {
        Some(Seq::empty())
    } else {
        match spec_parse_entry(s) {
            None => None,
            Some((c, r)) => if r.len() < s.len() {
                match spec_parse(r) {
                    None => None,
                    Some(t) => Some(seq![c] + t),
                }
            } else {
                None
            },
        }
    }
}

proof fn lemma_expect_concat(lit: Seq<char>, rest: Seq<char>)
    ensures
        spec_expect(lit + rest, lit) == Some(rest),
{
    assert((lit + rest).take(lit.len() as int) =~= lit);
    assert((lit + rest).skip(lit.len() as int) =~= rest);
}

proof fn lemma_unquote_escaped(f: Seq<char>, rest: Seq<char>)
    requires
        rest.len() >= 1,
        rest[0] == '"',
    ensures
        spec_unquote(spec_escape(f) + rest) == Some((f, rest)),
    decreases f.len(),
{
    let s = spec_escape(f) + rest;
    if f.len() == 0 {
        assert(spec_escape(f) == Seq::<char>::empty());
        assert(s =~= rest);
        assert(Seq::<char>::empty() =~= f);
    } else {
        let c = f[0];
        let ftail = f.drop_first();
        assert(spec_escape(f) == escape_char(c) + spec_escape(ftail));
        lemma_unquote_escaped(ftail, rest);
        assert(seq![c] + ftail =~= f);
        if c == '\\' || c == '"' || c == '\n' || c == '\r' {
            assert(escape_char(c).len() == 2);
            assert(s[0] == escape_char(c)[0]);
            assert(s[1] == escape_char(c)[1]);
            assert(s[0] == '\\');
            assert(unescape_char(escape_char(c)[1]) == Some(c));
            assert(s.skip(2) =~= spec_escape(ftail) + rest);
        } else {
            assert(escape_char(c).len() == 1);
            assert(s[0] == c);
            assert(s.drop_first() =~= spec_escape(ftail) + rest);
        }
    }
}

proof fn lemma_take_digits_concat(d: Seq<char>, rest: Seq<char>)
    requires
        forall|i: int| 0 <= i < d.len() ==> is_digit(#[trigger] d[i]),
        rest.len() == 0 || !is_digit(rest[0]),
    ensures
        spec_take_digits(d + rest) == (d, rest),
    decreases d.len(),
{
    if d.len() == 0 {
        assert(d + rest =~= rest);
        assert(Seq::<char>::empty() =~= d);
    } else {
        assert((d + rest)[0] == d[0]);
        assert((d + rest).drop_first() =~= d.drop_first() + rest);
        lemma_take_digits_concat(d.drop_first(), rest);
        assert(seq![d[0]] + d.drop_first() =~= d);
    }
}

proof fn lemma_parse_date_concat(n: u64, tail: Seq<char>)
    ensures
        spec_parse_date(spec_decimal(n as nat) + seq!['\n'] + tail) == Some((n, tail)),
{
    let d = spec_decimal(n as nat);
    let nl = seq!['\n'];
    crate::text::lemma_decimal_is_digits(n as nat);
    assert(!is_digit('\n'));
    assert((nl + tail)[0] == '\n');
    lemma_take_digits_concat(d, nl + tail);
    assert(d + nl + tail =~= d + (nl + tail));
    crate::text::lemma_decimal_value(n as nat);
    assert((nl + tail).drop_first() =~= tail);
}

/// Parsing one serialized entry from the front of any input yields the
/// original comment and leaves the rest untouched.
pub proof fn lemma_parse_entry_round_trip(c: CommentData, tail: Seq<char>)
    ensures
        spec_parse_entry(spec_entry(c) + tail) == Some((c, tail)),
{
    let s = spec_entry(c) + tail;
    let r9 = spec_decimal(c.date as nat) + seq!['\n'] + tail;
    let r8 = lit_date() + r9;
    let r7 = spec_escape(c.url) + r8;
    let r6 = lit_url() + r7;
    let r5 = spec_escape(c.name) + r6;
    let r4 = lit_name() + r5;
    let r3 = spec_escape(c.message) + r4;
    let r2 = lit_message() + r3;
    let r1 = spec_escape(c.id) + r2;
    reveal_strlit("- id: \"");
    reveal_strlit("\"\n  message: \"");
    reveal_strlit("\"\n  name: \"");
    reveal_strlit("\"\n  url: \"");
    reveal_strlit("\"\n  date: ");
    assert(s =~= lit_id() + r1);
    lemma_expect_concat(lit_id(), r1);
    assert(r2[0] == '"');
    lemma_unquote_escaped(c.id, r2);
    assert(r2 =~= lit_message() + r3);
    lemma_expect_concat(lit_message(), r3);
    assert(r4[0] == '"');
    lemma_unquote_escaped(c.message, r4);
    assert(r4 =~= lit_name() + r5);
    lemma_expect_concat(lit_name(), r5);
    assert(r6[0] == '"');
    lemma_unquote_escaped(c.name, r6);
    assert(r6 =~= lit_url() + r7);
    lemma_expect_concat(lit_url(), r7);
    assert(r8[0] == '"');
    lemma_unquote_escaped(c.url, r8);
    assert(r8 =~= lit_date() + r9);
    lemma_expect_concat(lit_date(), r9);
    lemma_parse_date_concat(c.date, tail);
}

proof fn lemma_entry_nonempty(c: CommentData)
    ensures
        spec_entry(c).len() >= 1,
{
    reveal_strlit("- id: \"");
}

/// Law: a file written by this crate parses back to exactly the comments
/// it was written from.
pub proof fn lemma_parse_entries_round_trip(cs: Seq<CommentData>)
    ensures
        spec_parse(spec_entries(cs)) == Some(cs),
    decreases cs.len(),
{
    if cs.len() == 0 {
    } else {
        let head = cs[0];
        let tail = spec_entries(cs.drop_first());
        lemma_parse_entry_round_trip(head, tail);
        lemma_entry_nonempty(head);
        lemma_parse_entries_round_trip(cs.drop_first());
        assert(seq![head] + cs.drop_first() =~= cs);
    }
}

/// Law: merging one comment into an empty baseline and parsing the result
/// yields exactly one entry, equal to the original comment.
pub proof fn lemma_single_entry_round_trip(c: CommentData)
    ensures
        spec_parse(spec_entry(c)) == Some(seq![c]),
{
    lemma_parse_entries_round_trip(seq![c]);
    assert(seq![c][0] == c);
    assert(seq![c].drop_first() =~= Seq::<CommentData>::empty());
    assert(spec_entries(Seq::<CommentData>::empty()) == Seq::<char>::empty());
    assert(spec_entries(seq![c]) == spec_entry(c) + Seq::<char>::empty());
    assert(spec_entries(seq![c]) =~= spec_entry(c));
}


proof fn lemma_expect_extend(s: Seq<char>, lit: Seq<char>, t: Seq<char>)
    requires
        spec_expect(s, lit) is Some,
    ensures
        spec_expect(s + t, lit) == Some(spec_expect(s, lit)->Some_0 + t),
{
    let n = lit.len() as int;
    assert((s + t).take(n) =~= s.take(n));
    assert((s + t).skip(n) =~= s.skip(n) + t);
}

proof fn lemma_unquote_extend(s: Seq<char>, t: Seq<char>)
    requires
        spec_unquote(s) is Some,
    ensures
        spec_unquote(s + t) == Some(
            (spec_unquote(s)->Some_0.0, spec_unquote(s)->Some_0.1 + t),
        ),
    decreases s.len(),
{
    let c = s[0];
    assert((s + t)[0] == c);
    if c == '"' {
    } else if c == '\\' {
        assert(s.len() >= 2);
        assert((s + t)[1] == s[1]);
        assert((s + t).skip(2) =~= s.skip(2) + t);
        lemma_unquote_extend(s.skip(2), t);
    } else {
        assert((s + t).drop_first() =~= s.drop_first() + t);
        lemma_unquote_extend(s.drop_first(), t);
    }
}

proof fn lemma_take_digits_extend(s: Seq<char>, t: Seq<char>)
    requires
        spec_take_digits(s).1.len() >= 1,
    ensures
        spec_take_digits(s + t) == (spec_take_digits(s).0, spec_take_digits(s).1 + t),
    decreases s.len(),
{
    assert(s.len() >= 1);
    assert((s + t)[0] == s[0]);
    if !is_digit(s[0]) {
    } else {
        assert((s + t).drop_first() =~= s.drop_first() + t);
        lemma_take_digits_extend(s.drop_first(), t);
    }
}

proof fn lemma_parse_date_extend(s: Seq<char>, t: Seq<char>)
    requires
        spec_parse_date(s) is Some,
    ensures
        spec_parse_date(s + t) == Some(
            (spec_parse_date(s)->Some_0.0, spec_parse_date(s)->Some_0.1 + t),
        ),
{
    lemma_take_digits_extend(s, t);
    let r = spec_take_digits(s).1;
    assert((r + t)[0] == r[0]);
    assert((r + t).drop_first() =~= r.drop_first() + t);
}

proof fn lemma_parse_entry_extend(s: Seq<char>, t: Seq<char>)
    requires
        spec_parse_entry(s) is Some,
    ensures
        spec_parse_entry(s + t) == Some(
            (spec_parse_entry(s)->Some_0.0, spec_parse_entry(s)->Some_0.1 + t),
        ),
{
    lemma_expect_extend(s, lit_id(), t);
    let s1 = spec_expect(s, lit_id())->Some_0;
    lemma_unquote_extend(s1, t);
    let s2 = spec_unquote(s1)->Some_0.1;
    lemma_expect_extend(s2, lit_message(), t);
    let s3 = spec_expect(s2, lit_message())->Some_0;
    lemma_unquote_extend(s3, t);
    let s4 = spec_unquote(s3)->Some_0.1;
    lemma_expect_extend(s4, lit_name(), t);
    let s5 = spec_expect(s4, lit_name())->Some_0;
    lemma_unquote_extend(s5, t);
    let s6 = spec_unquote(s5)->Some_0.1;
    lemma_expect_extend(s6, lit_url(), t);
    let s7 = spec_expect(s6, lit_url())->Some_0;
    lemma_unquote_extend(s7, t);
    let s8 = spec_unquote(s7)->Some_0.1;
    lemma_expect_extend(s8, lit_date(), t);
    let s9 = spec_expect(s8, lit_date())->Some_0;
    lemma_parse_date_extend(s9, t);
}

/// Law: appending one entry to any baseline that parses preserves the
/// baseline's entries. The merged content parses to the baseline's
/// comments unchanged, followed by the new one.
pub proof fn lemma_append_preserves_parse(b: Seq<char>, es: Seq<CommentData>, c: CommentData)
    requires
        spec_parse(b) == Some(es),
    ensures
        spec_parse(b + spec_entry(c)) == Some(es.push(c)),
    decreases b.len(),
{
    if b.len() == 0 {
        assert(b + spec_entry(c) =~= spec_entry(c));
        lemma_single_entry_round_trip(c);
        assert(es =~= Seq::<CommentData>::empty());
        assert(seq![c] =~= es.push(c));
    } else {
        let c0 = spec_parse_entry(b)->Some_0.0;
        let r = spec_parse_entry(b)->Some_0.1;
        let est = spec_parse(r)->Some_0;
        lemma_parse_entry_extend(b, spec_entry(c));
        lemma_entry_nonempty(c);
        lemma_append_preserves_parse(r, est, c);
        assert(es == seq![c0] + est);
        assert(seq![c0] + est.push(c) =~= (seq![c0] + est).push(c));
    }
}

} // verus!
