//! Parsing of the plain-value options the command line hands the core: the
//! size threshold with its unit suffix, depths and counts, thread counts,
//! and the exclusion regex with its version-control defaults.

use vstd::prelude::*;

verus! {

use crate::error::Internal;
use crate::gitignore::lemma_scan_to_unique;
use crate::gitignore::scan_to;
use crate::matcher::UserRegex;
use crate::matcher::regex_accepts;
use crate::strutil::digit_val;
use crate::strutil::is_digit;
use crate::strutil::is_digit_exec;
use crate::utils::get_processors;

/// Every character in `[i, j)` is a decimal digit.
pub open spec fn all_digits(s: Seq<char>, i: int, j: int) -> bool {
    forall|m: int| i <= m < j ==> is_digit(#[trigger] s[m])
}

/// The number the digits in `[i, j)` denote.
pub open spec fn digits_value(s: Seq<char>, i: int, j: int) -> int
    decreases j - i,
{
    if j <= i {
        0
    } else {
        digits_value(s, i, j - 1) * 10 + digit_val(s[j - 1])
    }
}

proof fn lemma_digits_value_bounds(s: Seq<char>, i: int, j: int)
    requires
        i <= j,
        all_digits(s, i, j),
    ensures
        0 <= digits_value(s, i, j),
        forall|m: int| i <= m <= j ==> 0 <= #[trigger] digits_value(s, i, m) <= digits_value(s, i, j),
    decreases j - i,
{
    if i < j {
        lemma_digits_value_bounds(s, i, j - 1);
        assert(digits_value(s, i, j) == digits_value(s, i, j - 1) * 10 + digit_val(s[j - 1]));
        assert(digits_value(s, i, j - 1) * 10 >= digits_value(s, i, j - 1)) by (nonlinear_arith)
            requires digits_value(s, i, j - 1) >= 0 {}
    }
}

/// Parse the digits in `[start, end)` as a `u64`; `None` where a digit is
/// missing or the value does not fit.
fn parse_u64_digits(s: &str, start: usize, end: usize) -> (r: Option<u64>)
    requires
        start <= end <= s@.len(),
    ensures
        r is Some <==> (start < end && all_digits(s@, start as int, end as int) && digits_value(
            s@,
            start as int,
            end as int,
        ) <= u64::MAX),
        r matches Some(v) ==> v == digits_value(s@, start as int, end as int),
{
    if start == end {
        return None;
    }
    let mut acc: u64 = 0;
    let mut m = start;
    while m < end
        invariant
            start <= m <= end <= s@.len(),
            all_digits(s@, start as int, m as int),
            acc == digits_value(s@, start as int, m as int),
        decreases end - m,
    {
        let c = s.get_char(m);
        if !is_digit_exec(c) {
            return None;
        }
        let d = crate::strutil::digit_val_exec(c);
        let acc10 = match acc.checked_mul(10) {
            Some(x) => x,
            None => {
                proof {
                    if all_digits(s@, start as int, end as int) {
                        lemma_digits_value_bounds(s@, start as int, end as int);
                        assert(digits_value(s@, start as int, m + 1) == acc * 10 + digit_val(
                            s@[m as int],
                        ));
                    }
                }
                return None;
            },
        };
        let next = match acc10.checked_add(d as u64) {
            Some(x) => x,
            None => {
                proof {
                    if all_digits(s@, start as int, end as int) {
                        lemma_digits_value_bounds(s@, start as int, end as int);
                        assert(digits_value(s@, start as int, m + 1) == acc * 10 + digit_val(
                            s@[m as int],
                        ));
                    }
                }
                return None;
            },
        };
        acc = next;
        m = m + 1;
    }
    proof {
        lemma_digits_value_bounds(s@, start as int, end as int);
    }
    Some(acc)
}

/// The byte multiplier a unit suffix denotes.
pub open spec fn scale_of(c: char) -> Option<u64> {
    if c == 'G' || c == 'g' {
        Some(1073741824u64)
    } else if c == 'M' || c == 'm' {
        Some(1048576u64)
    } else if c == 'k' || c == 'K' {
        Some(1024u64)
    } else if c == 'b' || c == 'B' {
        Some(1u64)
    } else {
        None
    }
}

/// What a threshold string denotes: one or more digits, then a unit suffix
/// (anything after it is ignored). `None` where the shape is wrong or the
/// scaled value does not fit in 64 bits; callers fall back to one MiB.
pub open spec fn threshold_of(s: Seq<char>) -> Option<u64> {
    let k = scan_to(s, |c: char| !is_digit(c), 0);
    if k == 0 || k >= s.len() {
        None
    } else {
        match scale_of(s[k]) {
            None => None,
            Some(scale) => {
                let v = digits_value(s, 0, k);
                if 0 <= v * scale <= u64::MAX {
                    Some((v * scale) as u64)
                } else {
                    None
                }
            },
        }
    }
}

/// Parse one threshold string, falling back to one MiB where it does not
/// parse or does not fit.
pub fn pre_threshold(t_from_cli: &str) -> (r: u64)
    ensures
        r == (match threshold_of(t_from_cli@) {
            Some(v) => v,
            None => 1048576u64,
        }),
{
    let n = t_from_cli.unicode_len();
    let mut k: usize = 0;
    while k < n && is_digit_exec(t_from_cli.get_char(k))
        invariant
            n == t_from_cli@.len(),
            0 <= k <= n,
            all_digits(t_from_cli@, 0, k as int),
        decreases n - k,
    {
        k = k + 1;
    }
    proof {
        lemma_scan_to_unique(t_from_cli@, |c: char| !is_digit(c), 0, k as int);
    }
    if k == 0 || k >= n {
        return 1048576;
    }
    let scale: u64 = match t_from_cli.get_char(k) {
        'G' | 'g' => 1073741824,
        'M' | 'm' => 1048576,
        'k' | 'K' => 1024,
        'b' | 'B' => 1,
        _ => {
            return 1048576;
        },
    };
    let v = match parse_u64_digits(t_from_cli, 0, k) {
        Some(v) => v,
        None => {
            // the digits alone exceed 64 bits, so the scaled value does too
            proof {
                lemma_digits_value_bounds(t_from_cli@, 0, k as int);
                let v0 = digits_value(t_from_cli@, 0, k as int);
                let sc = scale_of(t_from_cli@[k as int])->0;
                assert(v0 * sc >= v0 * 1) by (nonlinear_arith)
                    requires v0 >= 0, sc >= 1 {}
            }
            return 1048576;
        },
    };
    match v.checked_mul(scale) {
        Some(x) => x,
        None => 1048576,
    }
}

/// Whether a threshold string is recognized, so that a caller can emit a
/// diagnostic before `threshold` falls back to the one-MiB default.
pub fn threshold_recognized(t: &str) -> (r: bool)
    ensures
        r == (threshold_of(t@) is Some),
{
    let n = t.unicode_len();
    let mut k: usize = 0;
    while k < n && is_digit_exec(t.get_char(k))
        invariant
            n == t@.len(),
            0 <= k <= n,
            all_digits(t@, 0, k as int),
        decreases n - k,
    {
        k = k + 1;
    }
    proof {
        lemma_scan_to_unique(t@, |c: char| !is_digit(c), 0, k as int);
    }
    if k == 0 || k >= n {
        return false;
    }
    let scale: u64 = match t.get_char(k) {
        'G' | 'g' => 1073741824,
        'M' | 'm' => 1048576,
        'k' | 'K' => 1024,
        'b' | 'B' => 1,
        _ => {
            return false;
        },
    };
    let v = match parse_u64_digits(t, 0, k) {
        Some(v) => v,
        None => {
            // the digits alone exceed 64 bits, so the scaled value does too
            proof {
                lemma_digits_value_bounds(t@, 0, k as int);
                let v0 = digits_value(t@, 0, k as int);
                let sc = scale_of(t@[k as int])->0;
                assert(v0 * sc >= v0 * 1) by (nonlinear_arith)
                    requires v0 >= 0, sc >= 1 {}
            }
            return false;
        },
    };
    v.checked_mul(scale).is_some()
}

/// Parse a threshold from a command-line flag; absent stays absent.
pub fn threshold(s: Option<&str>) -> (r: Option<u64>)
    ensures
        match s {
            None => r is None,
            Some(t) => r == Some(
                (match threshold_of(t@) {
                    Some(v) => v,
                    None => 1048576u64,
                }),
            ),
        },
{
    match s {
        Some(t) => Some(pre_threshold(t)),
        None => None,
    }
}

/// What a bare unsigned number string denotes, as the standard integer
/// parser reads it: an optional leading `+`, then one or more digits.
pub open spec fn parse_uint(s: Seq<char>) -> Option<int> {
    let start: int = if s.len() > 0 && s[0] == '+' {
        1
    } else {
        0
    };
    if s.len() > start && all_digits(s, start, s.len() as int) {
        Some(digits_value(s, start, s.len() as int))
    } else {
        None
    }
}

/// Parse a whole string as a `u64`; `None` where it is malformed or does
/// not fit.
fn parse_uint_exec(s: &str) -> (r: Option<u64>)
    ensures
        r is Some <==> (match parse_uint(s@) {
            Some(v) => v <= u64::MAX,
            None => false,
        }),
        r matches Some(v) ==> parse_uint(s@) == Some(v as int),
{
    let n = s.unicode_len();
    if n == 0 {
        return None;
    }
    let start: usize = if s.get_char(0) == '+' {
        1
    } else {
        0
    };
    parse_u64_digits(s, start, n)
}

/// The recursion depth: the parsed flag, or 2 when the flag is absent. A
/// flag that does not parse as an 8-bit count is a fatal input error.
pub fn get_depth(depth_from_cli: Option<&str>) -> (r: Result<u8, Internal>)
    ensures
        match depth_from_cli {
            None => r == Ok::<u8, Internal>(2u8),
            Some(s) => match parse_uint(s@) {
                Some(v) => if 0 <= v <= 255 {
                    r == Ok::<u8, Internal>(v as u8)
                } else {
                    r == Err::<u8, Internal>(Internal::ParseNum)
                },
                None => r == Err::<u8, Internal>(Internal::ParseNum),
            },
        },
{
    match depth_from_cli {
        None => Ok(2),
        Some(s) => match parse_uint_exec(s) {
            Some(v) => if v <= 255 {
                Ok(v as u8)
            } else {
                Err(Internal::ParseNum)
            },
            None => Err(Internal::ParseNum),
        },
    }
}

/// The number of entries to report: the parsed flag, or 8 when absent.
pub fn get_num(num_from_cli: Option<&str>) -> (r: Result<usize, Internal>)
    ensures
        match num_from_cli {
            None => r == Ok::<usize, Internal>(8usize),
            Some(s) => match parse_uint(s@) {
                Some(v) => if 0 <= v <= usize::MAX {
                    r == Ok::<usize, Internal>(v as usize)
                } else {
                    r == Err::<usize, Internal>(Internal::ParseNum)
                },
                None => r == Err::<usize, Internal>(Internal::ParseNum),
            },
        },
{
    match num_from_cli {
        None => Ok(8),
        Some(s) => match parse_uint_exec(s) {
            Some(v) => if v <= usize::MAX as u64 {
                Ok(v as usize)
            } else {
                Err(Internal::ParseNum)
            },
            None => Err(Internal::ParseNum),
        },
    }
}

/// The worker count: the parsed flag, or the detected processor count less
/// one (floor one) when absent.
pub fn get_threads(num_from_cli: Option<&str>) -> (r: Result<usize, Internal>)
    ensures
        match num_from_cli {
            None => r matches Ok(n) && n >= 1,
            Some(s) => match parse_uint(s@) {
                Some(v) => if 0 <= v <= usize::MAX {
                    r == Ok::<usize, Internal>(v as usize)
                } else {
                    r == Err::<usize, Internal>(Internal::ParseNum)
                },
                None => r == Err::<usize, Internal>(Internal::ParseNum),
            },
        },
{
    match num_from_cli {
        None => Ok(get_processors()),
        Some(s) => match parse_uint_exec(s) {
            Some(v) => if v <= usize::MAX as u64 {
                Ok(v as usize)
            } else {
                Err(Internal::ParseNum)
            },
            None => Err(Internal::ParseNum),
        },
    }
}

/// The exclusion pattern handed to the artifact search: the user's pattern,
/// wrapped so that the usual version-control directories are excluded
/// beside it, or those defaults alone. `None` reports an invalid pattern.
pub fn get_excludes(cli_excludes: Option<&str>) -> (r: Option<UserRegex>)
    ensures
        match cli_excludes {
            Some(s) => {
                let built = "("@ + s@ + ")|(\\.git|\\.pijul|_darcs|\\.hg|\\.gnupg)$"@;
                (r is Some <==> regex_accepts(built)) && (r matches Some(u) ==> u@ == built)
            },
            None => (r is Some <==> regex_accepts("(\\.git|\\.pijul|_darcs|\\.hg|\\.gnupg)$"@)) && (
            r matches Some(u) ==> u@ == "(\\.git|\\.pijul|_darcs|\\.hg|\\.gnupg)$"@),
        },
{
    match cli_excludes {
        Some(s) => {
            let mut x = String::from_str("(");
            x.append(s);
            x.append(")|(\\.git|\\.pijul|_darcs|\\.hg|\\.gnupg)$");
            proof {
                assert(x@ =~= "("@ + s@ + ")|(\\.git|\\.pijul|_darcs|\\.hg|\\.gnupg)$"@);
            }
            UserRegex::compile(x.as_str())
        },
        None => UserRegex::compile("(\\.git|\\.pijul|_darcs|\\.hg|\\.gnupg)$"),
    }
}

} // verus!
