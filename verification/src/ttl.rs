//! The time-to-live choice attached to every stored entry, its resolution to
//! an absolute expiry instant, and the parsing of the client's TTL query
//! token.

use vstd::prelude::*;

verus! {

/// How long a stored entry should live: the store's default duration,
/// forever, or a caller-chosen number of seconds.
#[derive(Debug, Clone, Copy, PartialEq, Eq, Structural)]
pub enum CacheItemTTL {
    Default,
    Permanent,
    Custom(u64),
}

/// The expiry instant an entry gets when stored at `now` under `ttl`:
/// `None` never expires, otherwise the absolute instant, saturated at the
/// largest representable time.
pub open spec fn spec_resolve_ttl(ttl: CacheItemTTL, now: u64, default_ttl_seconds: u64) -> Option<
    u64,
> {
    match ttl {
        CacheItemTTL::Default => Some(sat_add_u64(now, default_ttl_seconds)),
        CacheItemTTL::Permanent => None,
        CacheItemTTL::Custom(d) => Some(sat_add_u64(now, d)),
    }
}

pub open spec fn sat_add_u64(a: u64, b: u64) -> u64 {
    if a + b > u64::MAX {
        u64::MAX
    } else {
        (a + b) as u64
    }
}

/// Turns the TTL choice made at `Set` time into the absolute expiry instant
/// of the new entry.
pub fn resolve_ttl(ttl: CacheItemTTL, now: u64, default_ttl_seconds: u64) -> (r: Option<u64>)
    ensures
        r == spec_resolve_ttl(ttl, now, default_ttl_seconds),
{
    match ttl {
        CacheItemTTL::Default => Some(now.saturating_add(default_ttl_seconds)),
        CacheItemTTL::Permanent => None,
        CacheItemTTL::Custom(d) => Some(now.saturating_add(d)),
    }
}

pub open spec fn is_digit_char(c: char) -> bool {
    48 <= c as u32 <= 57
}

pub open spec fn char_digit(c: char) -> nat {
    ((c as u32) - 48) as nat
}

pub open spec fn all_digits(s: Seq<char>) -> bool {
    forall|i: int| 0 <= i < s.len() ==> is_digit_char(#[trigger] s[i])
}

/// The number written by a sequence of decimal digits, most significant
/// first.
pub open spec fn digits_val(s: Seq<char>) -> nat
    decreases s.len(),
{
    if s.len() == 0 {
        0
    } else {
        digits_val(s.drop_last()) * 10 + char_digit(s.last())
    }
}

/// A query token that names a duration: at least one character, all decimal
/// digits, and a value that the machine can hold.
pub open spec fn is_duration_token(s: Seq<char>) -> bool {
    &&& s.len() >= 1
    &&& all_digits(s)
    &&& digits_val(s) <= u64::MAX
}

proof fn lemma_digits_val_take_le(s: Seq<char>, i: int)
    requires
        0 <= i <= s.len(),
    ensures
        digits_val(s.take(i)) <= digits_val(s),
    decreases s.len() - i,
{
    if i < s.len() {
        assert(s.take(i + 1).drop_last() =~= s.take(i));
        assert(digits_val(s.take(i + 1)) == digits_val(s.take(i)) * 10 + char_digit(
            s.take(i + 1).last(),
        ));
        lemma_digits_val_take_le(s, i + 1);
    } else {
        assert(s.take(i) =~= s);
    }
}

/// Reads a whole string as a decimal number: `Some` exactly when the string
/// is one or more digits whose value fits in a `u64`.
fn parse_u64(s: &str) -> (r: Option<u64>)
    ensures
        r is Some <==> is_duration_token(s@),
        r matches Some(v) ==> v == digits_val(s@),
{
    let n = s.unicode_len();
    let mut acc: u64 = 0;
    let mut i: usize = 0;
    while i < n
        invariant
            0 <= i <= n,
            n == s@.len(),
            all_digits(s@.take(i as int)),
            acc == digits_val(s@.take(i as int)),
        decreases n - i,
    {
        let c = s.get_char(i);
        let cv = c as u32;
        if cv < 48 || cv > 57 {
            assert(!is_digit_char(s@[i as int]));
            return None;
        }
        let d = (cv - 48) as u64;
        proof {
            assert(s@.take(i + 1).drop_last() =~= s@.take(i as int));
        }
        let stepped = match acc.checked_mul(10) {
            Some(m) => m.checked_add(d),
            None => None,
        };
        match stepped {
            Some(v) => {
                acc = v;
            },
            None => {
                proof {
                    assert(digits_val(s@.take(i + 1)) > u64::MAX);
                    lemma_digits_val_take_le(s@, i + 1);
                }
                return None;
            },
        }
        i = i + 1;
    }
    proof {
        assert(s@.take(n as int) =~= s@);
    }
    if n == 0 {
        None
    } else {
        Some(acc)
    }
}

/// What the optional `ttl` query token of a client `Set` means: absent means
/// the store's default, the word `permanent` means no expiry, a decimal
/// number means that many seconds, and anything else falls back to the
/// default.
pub open spec fn spec_parse_ttl_query(ttl_str: Option<Seq<char>>) -> CacheItemTTL {
    match ttl_str {
        Option::None => CacheItemTTL::Default,
        Option::Some(s) => {
            if s == "permanent"@ {
                CacheItemTTL::Permanent
            } else if is_duration_token(s) {
                CacheItemTTL::Custom(digits_val(s) as u64)
            } else {
                CacheItemTTL::Default
            }
        },
    }
}

/// Reads the client's optional TTL query token.
pub fn parse_ttl_query(ttl_str: Option<String>) -> (r: CacheItemTTL)
    ensures
        r == spec_parse_ttl_query(match ttl_str {
            Option::Some(s) => Option::Some(s@),
            Option::None => Option::None,
        }),
{
    match ttl_str {
        Option::None => CacheItemTTL::Default,
        Option::Some(s) => {
            let permanent: String = "permanent".to_owned();
            if s == permanent {
                CacheItemTTL::Permanent
            } else {
                match parse_u64(s.as_str()) {
                    Option::Some(seconds) => CacheItemTTL::Custom(seconds),
                    Option::None => CacheItemTTL::Default,
                }
            }
        },
    }
}

} // verus!
