//! String parsing: a date-time string is scanned left to right, every maximal
//! run of ASCII decimal digits becomes a token, and exactly six tokens -
//! year, month, day, hour, minute, second - must remain. Anything that is
//! not a digit is a separator and is discarded, so separators can be
//! arbitrary text, multi-byte characters included.

use vstd::prelude::*;
use vstd::string::StrSliceExecFns;

use crate::datetime::DateTimeView;
use crate::datetime::IllegalTimeError;
use crate::datetime::spec_create;

verus! {

/// Whether `c` is an ASCII decimal digit.
pub open spec fn is_ascii_digit(c: char) -> bool {
    48 <= c as u32 && c as u32 <= 57
}

/// The numeric value of the ASCII digit `c`.
pub open spec fn digit_value(c: char) -> int {
    c as u32 - 48
}

/// The digit runs of `s` when the run `cur` has been read immediately before
/// it: a digit extends the current run, anything else closes it.
pub open spec fn runs_from(s: Seq<char>, cur: Seq<char>) -> Seq<Seq<char>>
    decreases s.len(),
{
    if s.len() == 0 {
        if cur.len() == 0 {
            Seq::empty()
        } else {
            seq![cur]
        }
    } else if is_ascii_digit(s[0]) {
        runs_from(s.drop_first(), cur.push(s[0]))
    } else if cur.len() == 0 {
        runs_from(s.drop_first(), Seq::empty())
    } else {
        seq![cur] + runs_from(s.drop_first(), Seq::empty())
    }
}

/// The digit tokens of `s`: its maximal runs of ASCII digits, in order.
pub open spec fn spec_tokens(s: Seq<char>) -> Seq<Seq<char>> {
    runs_from(s, Seq::empty())
}

/// The unsigned value of a run of ASCII digits.
pub open spec fn token_value(t: Seq<char>) -> int
    decreases t.len(),
{
    if t.len() == 0 {
        0
    } else {
        10 * token_value(t.drop_last()) + digit_value(t.last())
    }
}

/// What parsing a date-time string yields: six digit tokens, each within its
/// field's native width (the year a 16-bit value, the rest 8-bit), handed to
/// the validating constructor. Any other token count, and any token beyond
/// its width, is a string error rather than a crash.
pub open spec fn spec_from_string(s: Seq<char>) -> Result<DateTimeView, IllegalTimeError> {
    let toks = spec_tokens(s);
    if toks.len() != 6 {
        Err(IllegalTimeError::TimeStringError)
    } else if token_value(toks[0]) > 65535 || token_value(toks[1]) > 255 || token_value(toks[2])
        > 255 || token_value(toks[3]) > 255 || token_value(toks[4]) > 255 || token_value(toks[5])
        > 255 {
        Err(IllegalTimeError::TimeStringError)
    } else {
        spec_create(
            token_value(toks[0]),
            token_value(toks[1]),
            token_value(toks[2]),
            token_value(toks[3]),
            token_value(toks[4]),
            token_value(toks[5]),
        )
    }
}

/// `v` is the token value `t` wherever `t` is small enough to be a field;
/// beyond that both lie past every field's range, and only that is tested.
pub open spec fn capped(v: int, t: int) -> bool {
    if t <= 65535 {
        v == t
    } else {
        v > 65535
    }
}

/// Collects the value of every digit token of `s`, capping values past the
/// widest field range.
pub(crate) fn scan_token_values(s: &str) -> (vals: Vec<u64>)
    ensures
        vals@.len() == spec_tokens(s@).len(),
        forall|j: int|
            0 <= j < vals@.len() ==> capped(vals@[j] as int, token_value(spec_tokens(s@)[j])),
{
    let n: usize = s.unicode_len();
    let mut vals: Vec<u64> = Vec::new();
    let mut cur: u64 = 0;
    let mut in_token: bool = false;
    let ghost mut done: Seq<Seq<char>> = Seq::empty();
    let ghost mut curtok: Seq<char> = Seq::empty();
    let mut i: usize = 0;
    proof {
        assert(s@.skip(0) =~= s@);
    }
    while i < n
        invariant
            i <= n,
            n == s@.len(),
            spec_tokens(s@) == done + runs_from(s@.skip(i as int), curtok),
            in_token <==> curtok.len() != 0,
            capped(cur as int, token_value(curtok)),
            cur <= 655359,
            vals@.len() == done.len(),
            forall|j: int| 0 <= j < done.len() ==> capped(vals@[j] as int, token_value(done[j])),
        decreases n - i,
    {
        let c: char = s.get_char(i);
        proof {
            assert(s@.skip(i as int).len() > 0);
            assert(s@.skip(i as int)[0] == s@[i as int]);
            assert(s@.skip(i as int).drop_first() =~= s@.skip(i as int + 1));
        }
        let code: u32 = c as u32;
        if 48 <= code && code <= 57 {
            proof {
                assert(runs_from(s@.skip(i as int), curtok) == runs_from(
                    s@.skip(i as int + 1),
                    curtok.push(c),
                ));
                assert(curtok.push(c).drop_last() =~= curtok);
                assert(curtok.push(c).last() == c);
            }
            let d: u64 = (code - 48) as u64;
            if cur <= 65535 {
                cur = cur * 10 + d;
            }
            in_token = true;
            proof {
                curtok = curtok.push(c);
            }
        } else {
            if in_token {
                proof {
                    assert(runs_from(s@.skip(i as int), curtok) == seq![curtok] + runs_from(
                        s@.skip(i as int + 1),
                        Seq::empty(),
                    ));
                    assert(done + (seq![curtok] + runs_from(s@.skip(i as int + 1), Seq::empty()))
                        =~= done.push(curtok) + runs_from(s@.skip(i as int + 1), Seq::empty()));
                }
                vals.push(cur);
                cur = 0;
                in_token = false;
                proof {
                    done = done.push(curtok);
                    curtok = Seq::empty();
                }
            } else {
                proof {
                    assert(runs_from(s@.skip(i as int), curtok) == runs_from(
                        s@.skip(i as int + 1),
                        Seq::empty(),
                    ));
                    assert(curtok =~= Seq::<char>::empty());
                }
            }
        }
        i = i + 1;
    }
    proof {
        assert(s@.skip(n as int) =~= Seq::<char>::empty());
    }
    if in_token {
        proof {
            assert(runs_from(s@.skip(n as int), curtok) =~= seq![curtok]);
            assert(done + seq![curtok] =~= done.push(curtok));
        }
        vals.push(cur);
        proof {
            done = done.push(curtok);
        }
    } else {
        proof {
            assert(runs_from(s@.skip(n as int), curtok) =~= Seq::<Seq<char>>::empty());
            assert(done + Seq::<Seq<char>>::empty() =~= done);
        }
    }
    proof {
        assert(spec_tokens(s@) == done);
    }
    vals
}

} // verus!
