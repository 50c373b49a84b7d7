//! Parsing of the small textual values that configuration holds: numbers in
//! a radix, and comma-separated lists.
use vstd::prelude::*;

use crate::text::{chars_of, string_from_chars};

verus! {

/// The value of digit `c` in `radix` (up to 16, letters in either case).
pub open spec fn digit_of(c: char, radix: nat) -> Option<nat> {
    let v: int = if '0' <= c && c <= '9' {
        c as int - '0' as int
    } else if 'a' <= c && c <= 'f' {
        c as int - 'a' as int + 10
    } else if 'A' <= c && c <= 'F' {
        c as int - 'A' as int + 10
    } else {
        radix as int
    };
    if v < radix {
        Some(v as nat)
    } else {
        None
    }
}

/// Whether every character of `d` is a digit in `radix`.
pub open spec fn all_digits(d: Seq<char>, radix: nat) -> bool {
    forall|i: int| 0 <= i < d.len() ==> (#[trigger] digit_of(d[i], radix)) is Some
}

/// The value of the digits `d` in `radix`, most significant first.
pub open spec fn digits_value(d: Seq<char>, radix: nat) -> nat
    decreases d.len(),
{
    if d.len() == 0 {
        0
    } else {
        digits_value(d.drop_last(), radix) * radix + match digit_of(d.last(), radix) {
            Some(v) => v,
            None => 0,
        }
    }
}

/// The number that `s` writes in `radix`: an optional `+`, then one digit or
/// more, as the standard library reads unsigned integers.
pub open spec fn number_of(s: Seq<char>, radix: nat) -> Option<nat> {
    let d = if s.len() > 0 && s[0] == '+' {
        s.drop_first()
    } else {
        s
    };
    if d.len() > 0 && all_digits(d, radix) {
        Some(digits_value(d, radix))
    } else {
        None
    }
}

proof fn lemma_digits_grow(d: Seq<char>, radix: nat, j: int)
    requires
        radix >= 1,
        0 <= j <= d.len(),
    ensures
        digits_value(d.subrange(0, j), radix) <= digits_value(d, radix),
    decreases d.len() - j,
{
    if j < d.len() {
        lemma_digits_grow(d, radix, j + 1);
        let p = d.subrange(0, j + 1);
        assert(p.drop_last() == d.subrange(0, j));
        let a = digits_value(d.subrange(0, j), radix);
        assert(a <= a * radix) by (nonlinear_arith)
            requires
                radix >= 1,
        ;
    } else {
        assert(d.subrange(0, j) == d);
    }
}

fn digit_value(c: char, radix: u32) -> (r: Option<u32>)
    requires
        2 <= radix <= 16,
    ensures
        match digit_of(c, radix as nat) {
            Some(v) => r == Some(v as u32),
            None => r is None,
        },
{
    let v: u32 = if '0' <= c && c <= '9' {
        (c as u32) - ('0' as u32)
    } else if 'a' <= c && c <= 'f' {
        (c as u32) - ('a' as u32) + 10
    } else if 'A' <= c && c <= 'F' {
        (c as u32) - ('A' as u32) + 10
    } else {
        radix
    };
    if v < radix {
        Some(v)
    } else {
        None
    }
}

/// Reads the number that `s` writes in `radix`; `None` where `s` writes no
/// number or one above `max`.
pub fn parse_number(s: &str, radix: u32, max: u64) -> (r: Option<u64>)
    requires
        2 <= radix <= 16,
    ensures
        r == (match number_of(s@, radix as nat) {
            Some(v) => if v <= max {
                Some(v as u64)
            } else {
                None
            },
            None => None,
        }),
{
    let cs = chars_of(s);
    let mut i: usize = 0;
    if cs.len() > 0 && cs[0] == '+' {
        i = 1;
    }
    let ghost d = if s@.len() > 0 && s@[0] == '+' {
        s@.drop_first()
    } else {
        s@
    };
    let start = i;
    assert(d == cs@.subrange(start as int, cs@.len() as int));
    if i >= cs.len() {
        return None;
    }
    let mut v: u64 = 0;
    while i < cs.len()
        invariant
            cs@ == s@,
            start <= i <= cs@.len(),
            d == cs@.subrange(start as int, cs@.len() as int),
            d == (if s@.len() > 0 && s@[0] == '+' {
                s@.drop_first()
            } else {
                s@
            }),
            2 <= radix <= 16,
            all_digits(cs@.subrange(start as int, i as int), radix as nat),
            v as nat == digits_value(cs@.subrange(start as int, i as int), radix as nat),
            v <= max,
        decreases cs@.len() - i,
    {
        let ghost p = cs@.subrange(start as int, i as int);
        let ghost q = cs@.subrange(start as int, i + 1);
        assert(q.drop_last() == p);
        assert(q == d.subrange(0, i + 1 - start));
        match digit_value(cs[i], radix) {
            None => {
                assert(d[i - start] == cs@[i as int]);
                assert(!all_digits(d, radix as nat)) by {
                    assert(digit_of(d[i - start], radix as nat) is None);
                }
                return None;
            },
            Some(x) => {
                if x as u64 > max {
                    proof {
                        assert(d[i - start] == cs@[i as int]);
                        assert(digits_value(q, radix as nat) >= x) by (nonlinear_arith)
                            requires
                                digits_value(q, radix as nat) == v as nat * radix + x,
                        ;
                        lemma_digits_grow(d, radix as nat, i + 1 - start);
                    }
                    return None;
                }
                if v > (max - x as u64) / radix as u64 {
                    proof {
                        assert(v as nat * radix + x > max) by (nonlinear_arith)
                            requires
                                v > (max - x) / (radix as int),
                                radix >= 2,
                                x <= max,
                        ;
                        lemma_digits_grow(d, radix as nat, i + 1 - start);
                        assert(all_digits(d, radix as nat) ==> digits_value(d, radix as nat) > max);
                    }
                    return None;
                }
                assert(v * radix as u64 + x as u64 <= max) by (nonlinear_arith)
                    requires
                        v <= (max - x) / (radix as int),
                        radix >= 2,
                        x <= max,
                ;
                v = v * radix as u64 + x as u64;
            },
        }
        i = i + 1;
    }
    assert(cs@.subrange(start as int, i as int) == d);
    Some(v)
}

/// The pieces of `s` between the occurrences of `sep`, in order; the empty
/// text gives one empty piece, as `str::split` does.
pub open spec fn split_spec(s: Seq<char>, sep: char) -> Seq<Seq<char>>
    decreases s.len(),
{
    if s.len() == 0 {
        seq![seq![]]
    } else {
        let p = split_spec(s.drop_last(), sep);
        if s.last() == sep {
            p.push(seq![])
        } else {
            p.update(p.len() - 1, p.last().push(s.last()))
        }
    }
}

pub proof fn lemma_split_nonempty(s: Seq<char>, sep: char)
    ensures
        split_spec(s, sep).len() >= 1,
    decreases s.len(),
{
    if s.len() > 0 {
        lemma_split_nonempty(s.drop_last(), sep);
    }
}

/// The views of a sequence of strings.
pub open spec fn views(v: Seq<String>) -> Seq<Seq<char>> {
    v.map_values(|x: String| x@)
}

/// Splits `s` at every comma.
pub fn split_commas(s: &str) -> (r: Vec<String>)
    ensures
        views(r@) == split_spec(s@, ','),
{
    split_on(s, ',')
}

/// Splits `s` at every occurrence of `sep`.
pub fn split_on(s: &str, sep: char) -> (r: Vec<String>)
    ensures
        views(r@) == split_spec(s@, sep),
{
    let cs = chars_of(s);
    let mut out: Vec<String> = Vec::new();
    let mut cur: Vec<char> = Vec::new();
    let mut i: usize = 0;
    while i < cs.len()
        invariant
            cs@ == s@,
            i <= cs@.len(),
            views(out@).push(cur@) == split_spec(cs@.subrange(0, i as int), sep),
        decreases cs@.len() - i,
    {
        let ghost before = cs@.subrange(0, i as int);
        assert(cs@.subrange(0, i + 1).drop_last() == before);
        proof {
            lemma_split_nonempty(before, sep);
        }
        if cs[i] == sep {
            let piece = string_from_chars(cur.as_slice());
            out.push(piece);
            cur = Vec::new();
            assert(views(out@) == views(out@.drop_last()).push(piece@));
        } else {
            cur.push(cs[i]);
        }
        i = i + 1;
    }
    assert(cs@.subrange(0, cs@.len() as int) == cs@);
    let last = string_from_chars(cur.as_slice());
    out.push(last);
    assert(views(out@) == views(out@.drop_last()).push(last@));
    out
}

} // verus!
