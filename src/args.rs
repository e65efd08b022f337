//! The integer parameters of a run, read from the texts given on the command
//! line, with their defaults.
use vstd::prelude::*;
use vstd::string::StrSliceExecFns;

verus! {

/// Production rate of the source when none is given.
pub const DEFAULT_PRODUCTION_RATE: i64 = 100;

/// Requested node count when none is given.
pub const DEFAULT_NODE_COUNT: u64 = 50;

/// Sink count when none is given.
pub const DEFAULT_SINK_COUNT: u64 = 4;

pub open spec fn is_digit(c: char) -> bool {
    '0' <= c && c <= '9'
}

pub open spec fn all_digits(s: Seq<char>) -> bool {
    forall|i: int| 0 <= i < s.len() ==> #[trigger] is_digit(s[i])
}

/// The number that a string of decimal digits denotes.
pub open spec fn digits_value(s: Seq<char>) -> int
    decreases s.len(),
{
    if s.len() == 0 {
        0
    } else {
        10 * digits_value(s.drop_last()) + (s.last() as int - '0' as int)
    }
}

/// The magnitude written by `s`: one or more decimal digits, `None` otherwise.
pub open spec fn magnitude_of(s: Seq<char>) -> Option<int> {
    if s.len() > 0 && all_digits(s) {
        Some(digits_value(s))
    } else {
        None
    }
}

/// The value of an unsigned integer text: an optional `+`, then digits.
pub open spec fn unsigned_value(s: Seq<char>) -> Option<int> {
    if s.len() > 0 && s[0] == '+' {
        magnitude_of(s.drop_first())
    } else {
        magnitude_of(s)
    }
}

/// The value of a signed integer text: an optional `+` or `-`, then digits.
pub open spec fn signed_value(s: Seq<char>) -> Option<int> {
    if s.len() > 0 && s[0] == '-' {
        match magnitude_of(s.drop_first()) {
            Some(m) => Some(-m),
            None => None,
        }
    } else {
        unsigned_value(s)
    }
}

/// `v`, when it lies in `lo..=hi`.
pub open spec fn within(v: Option<int>, lo: int, hi: int) -> Option<int> {
    match v {
        Some(x) => if lo <= x <= hi {
            Some(x)
        } else {
            None
        },
        None => None,
    }
}

proof fn lemma_digits_value_nonneg(s: Seq<char>)
    requires
        all_digits(s),
    ensures
        digits_value(s) >= 0,
    decreases s.len(),
{
    if s.len() > 0 {
        assert(all_digits(s.drop_last()));
        lemma_digits_value_nonneg(s.drop_last());
        assert(is_digit(s[s.len() - 1]));
    }
}

/// Reads the digits of `s` from index `start` on. Returns `None` when there
/// are none, when one is not a digit, or when their value exceeds `limit`.
fn read_magnitude(s: &str, start: usize, limit: u64) -> (r: Option<u64>)
    requires
        start <= s@.len(),
    ensures
        r == (match within(magnitude_of(s@.subrange(start as int, s@.len() as int)), 0, limit as int) {
            Some(v) => Some(v as u64),
            None => None,
        }),
{
    let len = s.unicode_len();
    if start >= len {
        return None;
    }
    let ghost digits = s@.subrange(start as int, s@.len() as int);
    let mut value: u128 = 0;
    let mut over = false;
    let mut i: usize = start;
    while i < len
        invariant
            len == s@.len(),
            start < len,
            start <= i <= len,
            digits == s@.subrange(start as int, s@.len() as int),
            all_digits(s@.subrange(start as int, i as int)),
            over ==> digits_value(s@.subrange(start as int, i as int)) > limit,
            !over ==> value == digits_value(s@.subrange(start as int, i as int)),
            !over ==> value <= limit,
        decreases len - i,
    {
        let c = s.get_char(i);
        let ghost before = s@.subrange(start as int, i as int);
        let ghost after = s@.subrange(start as int, i + 1);
        assert(after.drop_last() =~= before);
        if !('0' <= c && c <= '9') {
            assert(!all_digits(digits)) by {
                assert(digits[i - start] == c);
                assert(!is_digit(digits[i - start]));
            }
            return None;
        }
        assert(all_digits(after)) by {
            assert forall|k: int| 0 <= k < after.len() implies #[trigger] is_digit(after[k]) by {
                if k < before.len() {
                    assert(after[k] == before[k]);
                }
            }
        }
        if !over {
            let d = (c as u32 - '0' as u32) as u128;
            let next: u128 = value * 10 + d;
            if next > limit as u128 {
                over = true;
            } else {
                value = next;
            }
        } else {
            proof {
                lemma_digits_value_nonneg(before);
            }
        }
        i = i + 1;
    }
    assert(s@.subrange(start as int, i as int) =~= digits);
    if over {
        None
    } else {
        Some(value as u64)
    }
}

/// The value of `s` as std reads a `u64`: an optional `+`, then one or more
/// decimal digits, the value fitting in 64 bits.
pub fn parse_u64(s: &str) -> (r: Option<u64>)
    ensures
        r == (match within(unsigned_value(s@), 0, u64::MAX as int) {
            Some(v) => Some(v as u64),
            None => None,
        }),
{
    let len = s.unicode_len();
    if len > 0 && s.get_char(0) == '+' {
        let r = read_magnitude(s, 1, u64::MAX);
        assert(s@.subrange(1, s@.len() as int) =~= s@.drop_first());
        r
    } else {
        let r = read_magnitude(s, 0, u64::MAX);
        assert(s@.subrange(0, s@.len() as int) =~= s@);
        r
    }
}

/// The value of `s` as std reads an `i64`: an optional `+` or `-`, then one
/// or more decimal digits, the value fitting in 64 signed bits.
pub fn parse_i64(s: &str) -> (r: Option<i64>)
    ensures
        r == (match within(signed_value(s@), i64::MIN as int, i64::MAX as int) {
            Some(v) => Some(v as i64),
            None => None,
        }),
{
    let len = s.unicode_len();
    if len > 0 && s.get_char(0) == '-' {
        assert(s@.subrange(1, s@.len() as int) =~= s@.drop_first());
        match read_magnitude(s, 1, 9223372036854775808u64) {
            Some(m) => {
                proof {
                    lemma_digits_value_nonneg(s@.drop_first());
                }
                if m == 9223372036854775808u64 {
                    Some(i64::MIN)
                } else {
                    Some(-(m as i64))
                }
            },
            None => {
                proof {
                    if magnitude_of(s@.drop_first()) is Some {
                        lemma_digits_value_nonneg(s@.drop_first());
                    }
                }
                None
            },
        }
    } else {
        let start: usize = if len > 0 && s.get_char(0) == '+' {
            1
        } else {
            0
        };
        assert(s@.subrange(1, s@.len() as int) =~= s@.drop_first());
        assert(s@.subrange(0, s@.len() as int) =~= s@);
        let r = read_magnitude(s, start, i64::MAX as u64);
        proof {
            if unsigned_value(s@) is Some {
                lemma_digits_value_nonneg(s@.subrange(start as int, s@.len() as int));
            }
        }
        match r {
            Some(v) => Some(v as i64),
            None => None,
        }
    }
}

/// The integer parameters of a run.
#[derive(Clone, Copy, Debug, PartialEq, Eq, Structural)]
pub struct Settings {
    pub production_rate: i64,
    pub node_count: u64,
    pub sink_count: u64,
}

/// Which argument could not be read as an integer.
#[derive(Clone, Copy, Debug, PartialEq, Eq, Structural)]
pub enum ArgError {
    ProductionRate,
    NodeCount,
    SinkCount,
}

/// The value of an optional argument read as an `i64`, or `default` when absent.
pub open spec fn signed_arg(arg: Option<Seq<char>>, default: i64) -> Option<int> {
    match arg {
        None => Some(default as int),
        Some(s) => within(signed_value(s), i64::MIN as int, i64::MAX as int),
    }
}

/// The value of an optional argument read as a `u64`, or `default` when absent.
pub open spec fn unsigned_arg(arg: Option<Seq<char>>, default: u64) -> Option<int> {
    match arg {
        None => Some(default as int),
        Some(s) => within(unsigned_value(s), 0, u64::MAX as int),
    }
}

pub open spec fn opt_view(arg: Option<String>) -> Option<Seq<char>> {
    match arg {
        None => None,
        Some(s) => Some(s@),
    }
}

/// The settings that the given argument texts ask for, each absent one
/// taking its default. The arguments are checked in the order production
/// rate, node count, sink count, and the first that is not an integer of
/// its type is the error.
pub open spec fn settings_spec(
    production_rate: Option<Seq<char>>,
    node_count: Option<Seq<char>>,
    sink_count: Option<Seq<char>>,
) -> Result<Settings, ArgError> {
    let p = signed_arg(production_rate, DEFAULT_PRODUCTION_RATE);
    let n = unsigned_arg(node_count, DEFAULT_NODE_COUNT);
    let d = unsigned_arg(sink_count, DEFAULT_SINK_COUNT);
    if p is None {
        Err(ArgError::ProductionRate)
    } else if n is None {
        Err(ArgError::NodeCount)
    } else if d is None {
        Err(ArgError::SinkCount)
    } else {
        Ok(
            Settings {
                production_rate: p->0 as i64,
                node_count: n->0 as u64,
                sink_count: d->0 as u64,
            },
        )
    }
}

/// Reads the integer parameters of a run from the texts of the `-p`, `-n`
/// and `-d` arguments.
pub fn settings_from_args(
    production_rate: &Option<String>,
    node_count: &Option<String>,
    sink_count: &Option<String>,
) -> (r: Result<Settings, ArgError>)
    ensures
        r == settings_spec(opt_view(*production_rate), opt_view(*node_count), opt_view(*sink_count)),
{
    let p = match production_rate {
        None => DEFAULT_PRODUCTION_RATE,
        Some(s) => match parse_i64(s.as_str()) {
            Some(v) => v,
            None => {
                return Err(ArgError::ProductionRate);
            },
        },
    };
    let n = match node_count {
        None => DEFAULT_NODE_COUNT,
        Some(s) => match parse_u64(s.as_str()) {
            Some(v) => v,
            None => {
                return Err(ArgError::NodeCount);
            },
        },
    };
    let d = match sink_count {
        None => DEFAULT_SINK_COUNT,
        Some(s) => match parse_u64(s.as_str()) {
            Some(v) => v,
            None => {
                return Err(ArgError::SinkCount);
            },
        },
    };
    Ok(Settings { production_rate: p, node_count: n, sink_count: d })
}

} // verus!
