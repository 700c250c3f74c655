use vstd::prelude::*;

verus! {

/// Per-process configuration, read once at startup and never regenerated
/// mid-process.
#[derive(Debug, Clone)]
pub struct Env {
    pub database_url: String,
    pub database_pwd: String,
    pub database_usr: String,
    pub google_client_id: String,
    pub google_client_secret: String,
    pub frontend_url: String,
    pub frontend_domain: String,
    pub backend_port: u16,
}

/// The port used when none is configured.
pub const DEFAULT_PORT: u16 = 3000;

/// A decimal digit.
pub open spec fn spec_is_digit(c: char) -> bool {
    '0' <= c && c <= '9'
}

/// The number a digit denotes.
pub open spec fn spec_digit_value(c: char) -> int {
    c as int - '0' as int
}

/// The number a digit string denotes.
pub open spec fn spec_decimal_value(s: Seq<char>) -> int
    decreases s.len(),
{
    if s.len() == 0 {
        0
    } else {
        spec_decimal_value(s.drop_last()) * 10 + spec_digit_value(s.last())
    }
}

/// The port a configured string denotes: nonempty, digits only, and small
/// enough for a port number.
pub open spec fn spec_parse_port(s: Seq<char>) -> Option<u16> {
    if s.len() > 0 && (forall|i: int| 0 <= i < s.len() ==> spec_is_digit(#[trigger] s[i]))
        && spec_decimal_value(s) <= u16::MAX {
        Some(spec_decimal_value(s) as u16)
    } else {
        None
    }
}

/// A digit string denotes a number at least zero.
proof fn lemma_decimal_nonneg(s: Seq<char>)
    requires
        forall|i: int| 0 <= i < s.len() ==> spec_is_digit(#[trigger] s[i]),
    ensures
        spec_decimal_value(s) >= 0,
    decreases s.len(),
{
    if s.len() > 0 {
        lemma_decimal_nonneg(s.drop_last());
    }
}

/// A prefix of a digit string never denotes more than the whole string.
proof fn lemma_decimal_prefix_le(s: Seq<char>, i: int)
    requires
        0 <= i <= s.len(),
        forall|k: int| 0 <= k < s.len() ==> spec_is_digit(#[trigger] s[k]),
    ensures
        spec_decimal_value(s.take(i)) <= spec_decimal_value(s),
    decreases s.len() - i,
{
    if i == s.len() {
        assert(s.take(i) =~= s);
    } else {
        assert(s.take(i + 1).drop_last() =~= s.take(i));
        assert(s.take(i + 1).last() == s[i]);
        lemma_decimal_nonneg(s.take(i));
        assert(spec_decimal_value(s.take(i)) <= spec_decimal_value(s.take(i + 1)));
        lemma_decimal_prefix_le(s, i + 1);
    }
}

/// Parses a configured decimal port. `None` exactly when the string is
/// empty, holds a non-digit, or denotes more than a port number holds.
pub fn parse_port(s: &str) -> (r: Option<u16>)
    ensures
        r == spec_parse_port(s@),
{
    let n = s.unicode_len();
    if n == 0 {
        return None;
    }
    let mut value: u32 = 0;
    let mut i: usize = 0;
    while i < n
        invariant
            i <= n,
            n == s@.len(),
            forall|k: int| 0 <= k < i ==> spec_is_digit(#[trigger] s@[k]),
            value == spec_decimal_value(s@.take(i as int)),
            value <= u16::MAX,
        decreases n - i,
    {
        let c = s.get_char(i);
        if !('0' <= c && c <= '9') {
            return None;
        }
        let d = (c as u32) - ('0' as u32);
        proof {
            assert(s@.take(i + 1).drop_last() =~= s@.take(i as int));
            assert(s@.take(i + 1).last() == s@[i as int]);
        }
        let next = value * 10 + d;
        if next > 65535 {
            proof {
                if forall|k: int| 0 <= k < s@.len() ==> spec_is_digit(#[trigger] s@[k]) {
                    lemma_decimal_prefix_le(s@, i + 1);
                }
            }
            return None;
        }
        value = next;
        i = i + 1;
    }
    proof {
        assert(s@.take(n as int) =~= s@);
    }
    Some(value as u16)
}

/// The port the process listens on: the default when none is configured,
/// else whatever the configured string denotes.
pub fn backend_port_from(raw: Option<&String>) -> (r: Option<u16>)
    ensures
        match raw {
            None => r == Some(DEFAULT_PORT),
            Some(s) => r == spec_parse_port(s@),
        },
{
    match raw {
        None => Some(DEFAULT_PORT),
        Some(s) => parse_port(s.as_str()),
    }
}

} // verus!
