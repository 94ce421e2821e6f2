//! Reading numeric identifiers that travel as decimal text.

use vstd::prelude::*;

verus! {

broadcast use vstd::string::axiom_spec_iter;

/// Whether `c` is one of the ASCII digits `0` to `9`.
pub open spec fn is_digit(c: char) -> bool {
    '0' <= c && c <= '9'
}

/// The numeric value of one ASCII digit.
pub open spec fn digit_value(c: char) -> nat {
    (c as u32 - '0' as u32) as nat
}

/// Whether every character of `d` is an ASCII digit.
pub open spec fn digits_only(d: Seq<char>) -> bool {
    forall|i: int| 0 <= i < d.len() ==> is_digit(#[trigger] d[i])
}

/// The value of a run of decimal digits, most significant first.
pub open spec fn digits_value(d: Seq<char>) -> nat
    decreases d.len(),
{
    if d.len() == 0 {
        0
    } else {
        digits_value(d.drop_last()) * 10 + digit_value(d.last())
    }
}

/// The digits of an unsigned decimal: a single leading `+` is not one of them.
pub open spec fn unsigned_part(s: Seq<char>) -> Seq<char> {
    if s.len() > 0 && s[0] == '+' {
        s.drop_first()
    } else {
        s
    }
}

/// The value of `s` read as an unsigned 64-bit decimal: an optional `+`, then
/// one or more digits whose value fits in 64 bits; `None` for any other text.
pub open spec fn decimal_u64(s: Seq<char>) -> Option<u64> {
    let d = unsigned_part(s);
    if d.len() > 0 && digits_only(d) && digits_value(d) <= u64::MAX {
        Some(digits_value(d) as u64)
    } else {
        None
    }
}

/// Reads `s` as an unsigned 64-bit decimal number (an identifier on the wire).
pub fn parse_id(s: &str) -> (r: Option<u64>)
    ensures
        r == decimal_u64(s@),
{
    let mut value: u64 = 0;
    let mut ok: bool = true;
    let mut seen: bool = false;
    let mut started: bool = false;
    for c in it: s.chars()
        invariant
            it.seq() == s@,
            started == (it.index() > 0),
            ({
                let d = unsigned_part(s@.take(it.index() as int));
                &&& seen == (d.len() > 0)
                &&& ok ==> digits_only(d) && digits_value(d) == value
                &&& !ok ==> !digits_only(d) || digits_value(d) > u64::MAX
            }),
    {
        let ghost i = it.index() as int;
        let ghost d = unsigned_part(s@.take(i));
        assert(s@.take(i + 1) == s@.take(i).push(c));
        if !started && c == '+' {
            assert(unsigned_part(s@.take(i + 1)) =~= Seq::<char>::empty());
        } else {
            let ghost e = d.push(c);
            assert(unsigned_part(s@.take(i + 1)) =~= e);
            assert(e.drop_last() =~= d);
            seen = true;
            if ok {
                if '0' <= c && c <= '9' {
                    let dig: u64 = (c as u32 - '0' as u32) as u64;
                    match value.checked_mul(10) {
                        Some(m) => match m.checked_add(dig) {
                            Some(v) => {
                                value = v;
                            },
                            None => {
                                ok = false;
                            },
                        },
                        None => {
                            ok = false;
                        },
                    }
                    assert forall|j: int| 0 <= j < e.len() implies is_digit(#[trigger] e[j]) by {
                        if j < d.len() {
                            assert(e[j] == d[j]);
                        }
                    }
                } else {
                    ok = false;
                    assert(!is_digit(e[e.len() - 1]));
                }
            } else {
                proof {
                    if !digits_only(d) {
                        let j = choose|j: int| 0 <= j < d.len() && !is_digit(#[trigger] d[j]);
                        assert(e[j] == d[j]);
                    } else if is_digit(c) {
                        assert(digits_value(e) >= digits_value(d));
                    } else {
                        assert(!is_digit(e[e.len() - 1]));
                    }
                }
            }
        }
        started = true;
    }
    assert(s@.take(s@.len() as int) =~= s@);
    if ok && seen {
        Some(value)
    } else {
        None
    }
}

} // verus!
