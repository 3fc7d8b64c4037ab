//! The line protocol spoken with the external player process: answer
//! lines are matched by prefix and parsed as decimal seconds into
//! milliseconds; command lines are rendered from plain values.

use vstd::prelude::*;

use crate::strings::{str_contains, str_starts_with};

verus! {

/// Is `c` a decimal digit?
pub open spec fn is_digit(c: char) -> bool {
    48 <= c as u32 <= 57
}

/// The value of a digit sequence, most significant first.
pub open spec fn digits_val(s: Seq<char>) -> nat
    decreases s.len(),
{
    if s.len() == 0 {
        0
    } else {
        digits_val(s.drop_last()) * 10 + (s.last() as u32 - 48) as nat
    }
}

/// Are all characters of `s` digits?
pub open spec fn all_digits(s: Seq<char>) -> bool {
    forall|i: int| 0 <= i < s.len() ==> is_digit(#[trigger] s[i])
}

/// The length of the leading digit run of `s`.
pub open spec fn digits_prefix_len(s: Seq<char>) -> int
    decreases s.len(),
{
    if s.len() == 0 {
        0
    } else if !is_digit(s[0]) {
        0
    } else {
        1 + digits_prefix_len(s.drop_first())
    }
}

/// A well-formed duration: one or more digits, optionally followed by a
/// dot and further digits.
pub open spec fn duration_shaped(s: Seq<char>) -> bool {
    let d = digits_prefix_len(s);
    d > 0 && (d == s.len() || (s[d] as u32 == 46 && all_digits(s.subrange(d + 1, s.len() as int))))
}

/// Milliseconds named by a fractional-second digit run: the first three
/// digits, scaled; further digits are cut off.
pub open spec fn frac_ms(f: Seq<char>) -> nat {
    if f.len() == 0 {
        0
    } else if f.len() == 1 {
        digits_val(f) * 100
    } else if f.len() == 2 {
        digits_val(f) * 10
    } else {
        digits_val(f.subrange(0, 3))
    }
}

/// The millisecond value of a well-formed duration.
pub open spec fn duration_ms(s: Seq<char>) -> nat {
    let d = digits_prefix_len(s);
    let frac = if d == s.len() {
        Seq::<char>::empty()
    } else {
        s.subrange(d + 1, s.len() as int)
    };
    digits_val(s.subrange(0, d)) * 1000 + frac_ms(frac)
}

proof fn lemma_digits_prefix_props(s: Seq<char>)
    ensures
        0 <= digits_prefix_len(s) <= s.len(),
        all_digits(s.subrange(0, digits_prefix_len(s))),
        digits_prefix_len(s) == s.len() || !is_digit(s[digits_prefix_len(s)]),
    decreases s.len(),
{
    if s.len() == 0 {
    } else if !is_digit(s[0]) {
    } else {
        lemma_digits_prefix_props(s.drop_first());
        let d = digits_prefix_len(s);
        assert(forall|i: int|
            0 < i < d ==> s.subrange(0, d)[i] == s.drop_first().subrange(
                0,
                digits_prefix_len(s.drop_first()),
            )[i - 1]);
        assert(forall|i: int| 0 <= i < d ==> is_digit(#[trigger] s.subrange(0, d)[i]));
    }
}

proof fn lemma_digits_prefix_unique(s: Seq<char>, d: int)
    requires
        0 <= d <= s.len(),
        all_digits(s.subrange(0, d)),
        d == s.len() || !is_digit(s[d]),
    ensures
        d == digits_prefix_len(s),
{
    lemma_digits_prefix_props(s);
    let d2 = digits_prefix_len(s);
    if d < d2 {
        assert(is_digit(s.subrange(0, d2)[d]));
        assert(false);
    } else if d2 < d {
        assert(is_digit(s.subrange(0, d)[d2]));
        assert(false);
    }
}

proof fn lemma_digits_bounds(s: Seq<char>)
    requires
        all_digits(s),
    ensures
        s.len() == 0 ==> digits_val(s) == 0,
        s.len() <= 1 ==> digits_val(s) <= 9,
        s.len() <= 2 ==> digits_val(s) <= 99,
        s.len() <= 3 ==> digits_val(s) <= 999,
    decreases s.len(),
{
    if s.len() > 0 {
        assert(forall|i: int| 0 <= i < s.len() - 1 ==> s.drop_last()[i] == s[i]);
        lemma_digits_bounds(s.drop_last());
        assert(is_digit(s.last()));
    }
}

/// A digit run's value never shrinks when the run grows to the right.
proof fn lemma_digits_prefix_le(s: Seq<char>, k: int)
    requires
        0 <= k <= s.len(),
    ensures
        digits_val(s.subrange(0, k)) <= digits_val(s),
    decreases s.len() - k,
{
    if k < s.len() {
        lemma_digits_prefix_le(s, k + 1);
        let p = s.subrange(0, k + 1);
        assert(p.drop_last() =~= s.subrange(0, k));
        assert(digits_val(s.subrange(0, k)) <= digits_val(p));
    } else {
        assert(s.subrange(0, k) =~= s);
    }
}

/// Parse the digit run `s[from..to]` into a value; `None` on overflow.
fn parse_digits_u64(s: &str, from: usize, to: usize) -> (r: Option<u64>)
    requires
        from <= to <= s@.len(),
        all_digits(s@.subrange(from as int, to as int)),
    ensures
        match r {
            Option::Some(v) => v == digits_val(s@.subrange(from as int, to as int)),
            Option::None => digits_val(s@.subrange(from as int, to as int)) > u64::MAX,
        },
{
    let mut acc: u64 = 0;
    let mut i: usize = from;
    while i < to
        invariant
            from <= i <= to <= s@.len(),
            all_digits(s@.subrange(from as int, to as int)),
            acc == digits_val(s@.subrange(from as int, i as int)),
        decreases to - i,
    {
        let c = s.get_char(i) as u32;
        proof {
            assert(is_digit(s@.subrange(from as int, to as int)[i - from]));
            assert(s@.subrange(from as int, i + 1).drop_last() =~= s@.subrange(
                from as int,
                i as int,
            ));
            assert(s@.subrange(from as int, i + 1).last() == s@[i as int]);
        }
        let d = (c - 48) as u64;
        let acc10 = match acc.checked_mul(10) {
            Option::Some(v) => v,
            Option::None => {
                proof {
                    lemma_overflow_rest(s@, from as int, i as int, to as int);
                }
                return Option::None;
            },
        };
        let acc2 = match acc10.checked_add(d) {
            Option::Some(v) => v,
            Option::None => {
                proof {
                    lemma_overflow_rest(s@, from as int, i as int, to as int);
                }
                return Option::None;
            },
        };
        acc = acc2;
        i = i + 1;
    }
    Option::Some(acc)
}

/// Once a digit prefix's value exceeds the type, the whole run's does.
proof fn lemma_overflow_rest(s: Seq<char>, from: int, i: int, to: int)
    requires
        0 <= from <= i < to <= s.len(),
        digits_val(s.subrange(from, i)) * 10 + (s[i] as u32 - 48) > u64::MAX,
    ensures
        digits_val(s.subrange(from, to)) > u64::MAX,
{
    let t = s.subrange(from, to);
    assert(t.subrange(0, i - from + 1).drop_last() =~= s.subrange(from, i));
    assert(t.subrange(0, i - from + 1).last() == s[i]);
    assert(digits_val(t.subrange(0, i - from + 1)) > u64::MAX);
    lemma_digits_prefix_le(t, i - from + 1);
}

/// Parse a well-formed duration into milliseconds; `None` where the text
/// is not digits-dot-digits or the value exceeds the type.
pub fn parse_duration_ms(s: &str) -> (r: Option<u64>)
    ensures
        match r {
            Option::Some(v) => duration_shaped(s@) && duration_ms(s@) == v,
            Option::None => !duration_shaped(s@) || duration_ms(s@) > u64::MAX,
        },
{
    let n = s.unicode_len();
    // the whole-second digits
    let mut d: usize = 0;
    loop
        invariant_except_break
            0 <= d <= n,
            n == s@.len(),
            all_digits(s@.subrange(0, d as int)),
        ensures
            0 <= d <= n,
            n == s@.len(),
            all_digits(s@.subrange(0, d as int)),
            d == n || !is_digit(s@[d as int]),
        decreases n - d,
    {
        if d == n {
            break;
        }
        let c = s.get_char(d) as u32;
        if !(48 <= c && c <= 57) {
            break;
        }
        proof {
            assert(is_digit(s@[d as int]));
            assert(forall|i: int|
                0 <= i < d + 1 ==> is_digit(#[trigger] s@.subrange(0, d + 1)[i]));
        }
        d = d + 1;
    }
    proof {
        lemma_digits_prefix_unique(s@, d as int);
    }
    if d == 0 {
        return Option::None;
    }
    // the fractional digits, if a dot follows
    let fstart: usize;
    if d < n {
        let c = s.get_char(d) as u32;
        if c != 46 {
            return Option::None;
        }
        fstart = d + 1;
        let mut j: usize = fstart;
        while j < n
            invariant
                d < n,
                fstart == d + 1,
                fstart <= j <= n,
                n == s@.len(),
                d as int == digits_prefix_len(s@),
                s@[d as int] as u32 == 46,
                all_digits(s@.subrange(fstart as int, j as int)),
            decreases n - j,
        {
            let cj = s.get_char(j) as u32;
            proof {
                assert(s@.subrange(fstart as int, j + 1).drop_last() =~= s@.subrange(
                    fstart as int,
                    j as int,
                ));
                assert(s@.subrange(fstart as int, j + 1).last() == s@[j as int]);
            }
            if !(48 <= cj && cj <= 57) {
                proof {
                    assert(!is_digit(s@.subrange(d + 1, n as int)[j - fstart]));
                }
                return Option::None;
            }
            j = j + 1;
        }
    } else {
        fstart = n;
    }
    proof {
        assert(duration_shaped(s@));
    }
    // assemble the value with overflow checks
    let whole = match parse_digits_u64(s, 0, d) {
        Option::Some(w) => w,
        Option::None => {
            proof {
                lemma_frac_ge_zero(s@, d as int);
            }
            return Option::None;
        },
    };
    let fend: usize = if n - fstart > 3 {
        fstart + 3
    } else {
        n
    };
    proof {
        assert(all_digits(s@.subrange(fstart as int, fend as int))) by {
            if fstart < n {
                assert(forall|i: int|
                    0 <= i < fend - fstart ==> s@.subrange(fstart as int, fend as int)[i]
                        == s@.subrange(fstart as int, n as int)[i]);
            } else {
                assert(s@.subrange(fstart as int, fend as int).len() == 0);
            }
        }
    }
    let frac = match parse_digits_u64(s, fstart, fend) {
        Option::Some(f) => f,
        Option::None => {
            proof {
                lemma_digits_bounds(s@.subrange(fstart as int, fend as int));
                assert(false);
            }
            return Option::None;
        },
    };
    let scale: u64 = if fend == fstart {
        0
    } else if fend == fstart + 1 {
        100
    } else if fend == fstart + 2 {
        10
    } else {
        1
    };
    proof {
        lemma_digits_bounds(s@.subrange(fstart as int, fend as int));
        // the fractional digits contribute exactly `frac * scale`
        let fr = if d == n {
            Seq::<char>::empty()
        } else {
            s@.subrange(d + 1, n as int)
        };
        assert(frac_ms(fr) == frac * scale) by {
            if d == n {
                assert(s@.subrange(fstart as int, fend as int).len() == 0);
            } else if fr.len() >= 3 {
                assert(fr.subrange(0, 3) =~= s@.subrange(fstart as int, fend as int));
            } else {
                assert(fr =~= s@.subrange(fstart as int, fend as int));
            }
        }
        assert(frac * scale <= 999);
    }
    let ms1000 = match whole.checked_mul(1000) {
        Option::Some(v) => v,
        Option::None => {
            return Option::None;
        },
    };
    let ms = match ms1000.checked_add(frac * scale) {
        Option::Some(v) => v,
        Option::None => {
            return Option::None;
        },
    };
    Option::Some(ms)
}

/// The fractional part of a duration never subtracts.
proof fn lemma_frac_ge_zero(s: Seq<char>, d: int)
    ensures
        duration_ms(s) >= digits_val(s.subrange(0, digits_prefix_len(s))) * 1000,
{
}

/// The decimal digit run of `n`, most significant first.
pub open spec fn dec_rep(n: nat) -> Seq<char>
    decreases n,
{
    if n < 10 {
        seq![((48 + n) as u32) as char]
    } else {
        dec_rep(n / 10).push(((48 + n % 10) as u32) as char)
    }
}

/// The decimal text of `i`, a minus sign leading negative values.
pub open spec fn int_rep(i: int) -> Seq<char> {
    if i < 0 {
        seq!['-'] + dec_rep((-i) as nat)
    } else {
        dec_rep(i as nat)
    }
}

/// The decimal text of `n`.
pub fn u64_to_string(n: u64) -> (r: String)
    ensures
        r@ =~= dec_rep(n as nat),
{
    let mut out = String::new();
    let mut rem: u64 = n;
    loop
        invariant_except_break
            dec_rep(n as nat) =~= dec_rep(rem as nat) + out@,
        ensures
            out@ =~= dec_rep(n as nat),
        decreases rem,
    {
        let digit = rem % 10;
        let rest = rem / 10;
        let ds: &str = match digit {
            0 => {
                proof {
                    reveal_strlit("0");
                }
                "0"
            },
            1 => {
                proof {
                    reveal_strlit("1");
                }
                "1"
            },
            2 => {
                proof {
                    reveal_strlit("2");
                }
                "2"
            },
            3 => {
                proof {
                    reveal_strlit("3");
                }
                "3"
            },
            4 => {
                proof {
                    reveal_strlit("4");
                }
                "4"
            },
            5 => {
                proof {
                    reveal_strlit("5");
                }
                "5"
            },
            6 => {
                proof {
                    reveal_strlit("6");
                }
                "6"
            },
            7 => {
                proof {
                    reveal_strlit("7");
                }
                "7"
            },
            8 => {
                proof {
                    reveal_strlit("8");
                }
                "8"
            },
            _ => {
                proof {
                    reveal_strlit("9");
                }
                "9"
            },
        };
        proof {
            assert(ds@ =~= seq![((48 + digit) as u32) as char]);
        }
        let prev = out;
        out = String::from_str(ds).concat(prev.as_str());
        if rest == 0 {
            proof {
                assert(dec_rep(rem as nat) =~= seq![((48 + digit) as u32) as char]);
            }
            break;
        }
        proof {
            assert(dec_rep(rem as nat) =~= dec_rep(rest as nat).push(((48 + digit) as u32) as char));
            assert(dec_rep(rest as nat).push(((48 + digit) as u32) as char) =~= dec_rep(rest as nat)
                + ds@);
        }
        rem = rest;
    }
    out
}

/// The "pause" toggle line.
pub fn line_pause() -> (r: String)
    ensures
        r@ == "pause\n"@,
{
    String::from_str("pause\n")
}

/// The length query line.
pub fn line_get_length() -> (r: String)
    ensures
        r@ == "get_time_length\n"@,
{
    String::from_str("get_time_length\n")
}

/// The position query line.
pub fn line_get_pos() -> (r: String)
    ensures
        r@ == "get_time_pos\n"@,
{
    String::from_str("get_time_pos\n")
}

/// A relative seek of `secs` seconds.
pub fn line_seek_relative(secs: i32) -> (r: String)
    requires
        secs > i32::MIN,
    ensures
        r@ =~= "seek "@ + int_rep(secs as int) + " 0\n"@,
{
    let mag: u64 = if secs < 0 {
        (-(secs as i64)) as u64
    } else {
        secs as u64
    };
    let num = u64_to_string(mag);
    let head = if secs < 0 {
        proof {
            reveal_strlit("-");
        }
        let h = String::from_str("seek ").concat("-");
        proof {
            assert(h@ =~= "seek "@ + seq!['-']);
        }
        h
    } else {
        String::from_str("seek ")
    };
    let r = head.concat(num.as_str()).concat(" 0\n");
    proof {
        assert(r@ =~= "seek "@ + int_rep(secs as int) + " 0\n"@);
    }
    r
}

/// An absolute seek to the whole second holding the millisecond position.
pub fn line_seek_absolute(ms: u64) -> (r: String)
    ensures
        r@ =~= "seek "@ + dec_rep((ms / 1000) as nat) + " 2\n"@,
{
    let num = u64_to_string(ms / 1000);
    String::from_str("seek ").concat(num.as_str()).concat(" 2\n")
}

/// A volume change to `v`.
pub fn line_volume(v: u32) -> (r: String)
    ensures
        r@ =~= "volume "@ + dec_rep(v as nat) + " 1\n"@,
{
    let num = u64_to_string(v as u64);
    String::from_str("volume ").concat(num.as_str()).concat(" 1\n")
}

/// Parse one answer line: where it starts with `prefix`, the rest is read
/// as a duration in seconds and returned in milliseconds. Lines without
/// the prefix, malformed durations and values beyond the type give
/// `None`.
pub fn parse_answer(line: &str, prefix: &str) -> (r: Option<u64>)
    ensures
        match r {
            Option::Some(v) => {
                &&& prefix@.len() <= line@.len()
                &&& line@.subrange(0, prefix@.len() as int) =~= prefix@
                &&& duration_shaped(line@.subrange(prefix@.len() as int, line@.len() as int))
                &&& duration_ms(line@.subrange(prefix@.len() as int, line@.len() as int)) == v
            },
            Option::None => {
                ||| prefix@.len() > line@.len()
                ||| !(line@.subrange(0, prefix@.len() as int) =~= prefix@)
                ||| !duration_shaped(line@.subrange(prefix@.len() as int, line@.len() as int))
                ||| duration_ms(line@.subrange(prefix@.len() as int, line@.len() as int))
                    > u64::MAX
            },
        },
{
    if !str_starts_with(line, prefix) {
        return Option::None;
    }
    let plen = prefix.unicode_len();
    let n = line.unicode_len();
    let rest = line.substring_char(plen, n);
    parse_duration_ms(rest)
}

/// Does this output line carry the audio-output readiness marker?
pub fn is_ready_marker_line(line: &str) -> (r: bool)
    ensures
        r == exists|k: int|
            0 <= k && k + "AO: [alsa]"@.len() <= line@.len() && #[trigger] line@.subrange(
                k,
                k + "AO: [alsa]"@.len() as int,
            ) =~= "AO: [alsa]"@,
{
    str_contains(line, "AO: [alsa]")
}

} // verus!
