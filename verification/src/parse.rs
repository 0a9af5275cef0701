//! The executable parser for data files written by this crate: the inverse
//! of serialization, verified against the parsing model in [`crate::codec`].

use vstd::prelude::*;
use crate::codec::{
    Comment, CommentData, spec_expect, spec_parse, spec_parse_date, spec_parse_entry,
    spec_take_digits, spec_unquote, unescape_char,
};
use crate::text::{chars_to_string, digit_value, digits_value, is_digit, str_chars};

verus! {

fn is_digit_char(c: char) -> (r: bool)
    ensures
        r == is_digit(c),
{
    c == '0' || c == '1' || c == '2' || c == '3' || c == '4' || c == '5' || c == '6' || c == '7'
        || c == '8' || c == '9'
}

fn digit_value_of(c: char) -> (r: u64)
    requires
        is_digit(c),
    ensures
        r == digit_value(c),
        r <= 9,
{
    if c == '0' {
        0
    } else if c == '1' {
        1
    } else if c == '2' {
        2
    } else if c == '3' {
        3
    } else if c == '4' {
        4
    } else if c == '5' {
        5
    } else if c == '6' {
        6
    } else if c == '7' {
        7
    } else if c == '8' {
        8
    } else {
        9
    }
}

fn expect_lit(v: &Vec<char>, i: usize, lit: &str) -> (r: Option<usize>)
    requires
        i <= v@.len(),
    ensures
        r matches Some(j) ==> j == i + lit@.len() && j <= v@.len() && spec_expect(
            v@.skip(i as int),
            lit@,
        ) == Some(v@.skip(j as int)),
        r is None ==> spec_expect(v@.skip(i as int), lit@) is None,
{
    let l = str_chars(lit);
    if v.len() - i < l.len() {
        return None;
    }
    let mut k: usize = 0;
    while k < l.len()
        invariant
            k <= l@.len(),
            i + l@.len() <= v@.len(),
            v@.len() <= usize::MAX,
            l@ == lit@,
            forall|t: int| 0 <= t < k ==> v@[i + t] == l@[t],
        decreases l@.len() - k,
    {
        if v[i + k] != l[k] {
            proof {
                assert(v@.skip(i as int).take(lit@.len() as int)[k as int] == v@[i + k]);
            }
            return None;
        }
        k = k + 1;
    }
    proof {
        assert(v@.skip(i as int).take(lit@.len() as int) =~= lit@);
        assert(v@.skip(i as int).skip(lit@.len() as int) =~= v@.skip(i + lit@.len()));
    }
    Some(i + l.len())
}

fn parse_quoted(v: &Vec<char>, i: usize) -> (r: Option<(Vec<char>, usize)>)
    requires
        i <= v@.len(),
    ensures
        r matches Some(p) ==> i <= p.1 <= v@.len() && spec_unquote(v@.skip(i as int)) == Some(
            (p.0@, v@.skip(p.1 as int)),
        ),
        r is None ==> spec_unquote(v@.skip(i as int)) is None,
    decreases v@.len() - i,
{
    let ghost s = v@.skip(i as int);
    if i == v.len() {
        return None;
    }
    let c = v[i];
    proof {
        assert(s[0] == v@[i as int]);
    }
    if c == '"' {
        return Some((Vec::new(), i));
    }
    if c == '\n' {
        return None;
    }
    if c == '\\' {
        if v.len() - i < 2 {
            proof {
                assert(s.len() < 2);
            }
            return None;
        }
        let e = v[i + 1];
        proof {
            assert(s[1] == v@[i + 1]);
        }
        let u: char = if e == '\\' {
            '\\'
        } else if e == '"' {
            '"'
        } else if e == 'n' {
            '\n'
        } else if e == 'r' {
            '\r'
        } else {
            proof {
                assert(unescape_char(s[1]) is None);
            }
            return None;
        };
        proof {
            assert(unescape_char(s[1]) == Some(u));
            assert(v@.skip(i + 2) =~= s.skip(2));
        }
        match parse_quoted(v, i + 2) {
            None => None,
            Some(p) => {
                let mut w: Vec<char> = Vec::new();
                w.push(u);
                let mut t = p.0;
                w.append(&mut t);
                proof {
                    assert(w@ =~= seq![u] + spec_unquote(s.skip(2))->Some_0.0);
                }
                Some((w, p.1))
            },
        }
    } else {
        proof {
            assert(v@.skip(i + 1) =~= s.drop_first());
        }
        match parse_quoted(v, i + 1) {
            None => None,
            Some(p) => {
                let mut w: Vec<char> = Vec::new();
                w.push(c);
                let mut t = p.0;
                w.append(&mut t);
                proof {
                    assert(w@ =~= seq![s[0]] + spec_unquote(s.drop_first())->Some_0.0);
                }
                Some((w, p.1))
            },
        }
    }
}

fn take_digit_run(v: &Vec<char>, i: usize) -> (j: usize)
    requires
        i <= v@.len(),
    ensures
        i <= j <= v@.len(),
        spec_take_digits(v@.skip(i as int)) == (v@.subrange(i as int, j as int), v@.skip(j as int)),
    decreases v@.len() - i,
{
    if i == v.len() || !is_digit_char(v[i]) {
        proof {
            assert(v@.subrange(i as int, i as int) =~= Seq::<char>::empty());
            if i < v@.len() {
                assert(v@.skip(i as int)[0] == v@[i as int]);
            }
        }
        i
    } else {
        proof {
            assert(v@.skip(i as int)[0] == v@[i as int]);
            assert(v@.skip(i as int).drop_first() =~= v@.skip(i + 1));
        }
        let j = take_digit_run(v, i + 1);
        proof {
            assert(seq![v@[i as int]] + v@.subrange(i + 1, j as int) =~= v@.subrange(
                i as int,
                j as int,
            ));
        }
        j
    }
}

proof fn lemma_digits_value_step(s: Seq<char>, m: int)
    requires
        0 <= m < s.len(),
    ensures
        digits_value(s.take(m + 1)) == digits_value(s.take(m)) * 10 + digit_value(s[m]),
        digits_value(s.take(m + 1)) >= digits_value(s.take(m)),
{
    assert(s.take(m + 1).drop_last() =~= s.take(m));
    assert(s.take(m + 1).last() == s[m]);
    assert(digits_value(s.take(m)) * 10 >= digits_value(s.take(m))) by (nonlinear_arith);
}

proof fn lemma_digits_value_prefix(s: Seq<char>, m: int)
    requires
        0 <= m <= s.len(),
    ensures
        digits_value(s) >= digits_value(s.take(m)),
    decreases s.len() - m,
{
    if m == s.len() {
        assert(s.take(m) =~= s);
    } else {
        lemma_digits_value_step(s, m);
        lemma_digits_value_prefix(s, m + 1);
    }
}

proof fn lemma_take_digits_all_digits(s: Seq<char>)
    ensures
        forall|t: int|
            0 <= t < spec_take_digits(s).0.len() ==> is_digit(#[trigger] spec_take_digits(s).0[t]),
    decreases s.len(),
{
    if s.len() == 0 || !is_digit(s[0]) {
    } else {
        lemma_take_digits_all_digits(s.drop_first());
        let d = spec_take_digits(s).0;
        let dd = spec_take_digits(s.drop_first()).0;
        assert(d == seq![s[0]] + dd);
        assert forall|t: int| 0 <= t < d.len() implies is_digit(d[t]) by {
            if t == 0 {
                assert(d[0] == s[0]);
            } else {
                assert(d[t] == dd[t - 1]);
            }
        }
    }
}

fn parse_date_at(v: &Vec<char>, i: usize) -> (r: Option<(u64, usize)>)
    requires
        i <= v@.len(),
    ensures
        r matches Some(p) ==> i < p.1 <= v@.len() && spec_parse_date(v@.skip(i as int)) == Some(
            (p.0, v@.skip(p.1 as int)),
        ),
        r is None ==> spec_parse_date(v@.skip(i as int)) is None,
{
    let j = take_digit_run(v, i);
    let ghost d = v@.subrange(i as int, j as int);
    if j == i {
        proof {
            assert(d.len() == 0);
        }
        return None;
    }
    if j == v.len() {
        proof {
            assert(v@.skip(j as int).len() == 0);
        }
        return None;
    }
    if v[j] != '\n' {
        proof {
            assert(v@.skip(j as int)[0] == v@[j as int]);
        }
        return None;
    }
    proof {
        assert(v@.skip(j as int)[0] == v@[j as int]);
        lemma_take_digits_all_digits(v@.skip(i as int));
        assert(forall|t: int| 0 <= t < d.len() ==> is_digit(#[trigger] d[t]));
    }
    let mut acc: u64 = 0;
    let mut k: usize = i;
    while k < j
        invariant
            i <= k <= j <= v@.len(),
            j < v@.len(),
            d == v@.subrange(i as int, j as int),
            spec_take_digits(v@.skip(i as int)) == (d, v@.skip(j as int)),
            d.len() >= 1,
            v@[j as int] == '\n',
            forall|t: int| 0 <= t < d.len() ==> is_digit(#[trigger] d[t]),
            acc == digits_value(d.take(k - i)),
        decreases j - k,
    {
        proof {
            assert(d[k - i] == v@[k as int]);
        }
        let dv = digit_value_of(v[k]);
        if acc > (u64::MAX - dv) / 10 {
            proof {
                assert(acc * 10 + dv > u64::MAX) by (nonlinear_arith)
                    requires
                        acc > (u64::MAX - dv) / 10,
                        dv <= 9,
                ;
                lemma_digits_value_step(d, k - i);
                lemma_digits_value_prefix(d, k - i + 1);
                assert(digits_value(d) > u64::MAX);
            }
            return None;
        }
        proof {
            lemma_digits_value_step(d, k - i);
        }
        acc = acc * 10 + dv;
        k = k + 1;
    }
    proof {
        assert(d.take(j - i) =~= d);
        assert(v@.skip(j as int).drop_first() =~= v@.skip(j + 1));
    }
    Some((acc, j + 1))
}

fn parse_entry_at(v: &Vec<char>, i: usize) -> (r: Option<(Comment, usize)>)
    requires
        i <= v@.len(),
    ensures
        r matches Some(p) ==> i < p.1 <= v@.len() && spec_parse_entry(v@.skip(i as int)) == Some(
            (p.0@, v@.skip(p.1 as int)),
        ),
        r is None ==> spec_parse_entry(v@.skip(i as int)) is None,
{
    let i1 = match expect_lit(v, i, "- id: \"") {
        Some(j) => j,
        None => {
            return None;
        },
    };
    proof {
        reveal_strlit("- id: \"");
    }
    let (id, i2) = match parse_quoted(v, i1) {
        Some(p) => p,
        None => {
            return None;
        },
    };
    let i3 = match expect_lit(v, i2, "\"\n  message: \"") {
        Some(j) => j,
        None => {
            return None;
        },
    };
    let (message, i4) = match parse_quoted(v, i3) {
        Some(p) => p,
        None => {
            return None;
        },
    };
    let i5 = match expect_lit(v, i4, "\"\n  name: \"") {
        Some(j) => j,
        None => {
            return None;
        },
    };
    let (name, i6) = match parse_quoted(v, i5) {
        Some(p) => p,
        None => {
            return None;
        },
    };
    let i7 = match expect_lit(v, i6, "\"\n  url: \"") {
        Some(j) => j,
        None => {
            return None;
        },
    };
    let (url, i8) = match parse_quoted(v, i7) {
        Some(p) => p,
        None => {
            return None;
        },
    };
    let i9 = match expect_lit(v, i8, "\"\n  date: ") {
        Some(j) => j,
        None => {
            return None;
        },
    };
    let (date, end) = match parse_date_at(v, i9) {
        Some(p) => p,
        None => {
            return None;
        },
    };
    let c = Comment {
        id: chars_to_string(&id),
        message: chars_to_string(&message),
        name: chars_to_string(&name),
        url: chars_to_string(&url),
        date,
    };
    Some((c, end))
}

/// Parses a whole data file written by this crate: the comments of its
/// entries, in order, or nothing if the content is not a sequence of
/// well-formed entries.
pub fn parse_comments(s: &str) -> (r: Option<Vec<Comment>>)
    ensures
        r matches Some(cs) ==> spec_parse(s@) == Some(cs@.map_values(|c: Comment| c@)),
        r is None ==> spec_parse(s@) is None,
{
    let v = str_chars(s);
    let mut out: Vec<Comment> = Vec::new();
    let mut i: usize = 0;
    proof {
        assert(v@.skip(0) =~= s@);
        assert(out@.map_values(|c: Comment| c@) =~= Seq::<CommentData>::empty());
        if spec_parse(s@) is Some {
            assert(out@.map_values(|c: Comment| c@) + spec_parse(s@)->Some_0 =~= spec_parse(
                s@,
            )->Some_0);
        }
    }
    loop
        invariant
            i <= v@.len(),
            v@ == s@,
            match spec_parse(v@.skip(i as int)) {
                None => spec_parse(s@) is None,
                Some(t) => spec_parse(s@) == Some(out@.map_values(|c: Comment| c@) + t),
            },
        decreases v@.len() - i,
    {
        if i == v.len() {
            proof {
                assert(v@.skip(i as int).len() == 0);
                assert(out@.map_values(|c: Comment| c@) + Seq::<CommentData>::empty()
                    =~= out@.map_values(|c: Comment| c@));
            }
            return Some(out);
        }
        match parse_entry_at(&v, i) {
            None => {
                proof {
                    assert(v@.skip(i as int).len() > 0);
                }
                return None;
            },
            Some(p) => {
                let (c, j) = p;
                proof {
                    let s_i = v@.skip(i as int);
                    let s_j = v@.skip(j as int);
                    assert(s_i.len() > 0);
                    assert(s_j.len() < s_i.len());
                    if spec_parse(s_j) is Some {
                        let t = spec_parse(s_j)->Some_0;
                        assert(spec_parse(s_i) == Some(seq![c@] + t));
                        assert(out@.push(c).map_values(|x: Comment| x@) =~= out@.map_values(
                            |x: Comment| x@,
                        ) + seq![c@]);
                        assert(out@.map_values(|x: Comment| x@) + (seq![c@] + t) =~= out@.push(
                            c,
                        ).map_values(|x: Comment| x@) + t);
                    }
                }
                out.push(c);
                i = j;
            },
        }
    }
}

} // verus!
