use vstd::prelude::*;

verus! {

broadcast use vstd::string::is_ascii_spec_bytes;

/// The port that the service listens on when none is configured.
pub const DEFAULT_PORT: u16 = 8001;

/// The host that the service listens on when none is configured: every interface.
pub const DEFAULT_HOST: &'static str = "0.0.0.0";

/// The largest port number.
pub const MAX_PORT: u32 = 65535;

/// Whether a character is one of the decimal digits `0` to `9`.
pub open spec fn is_decimal_digit(c: char) -> bool {
    '0' <= c && c <= '9'
}

/// Whether a text is a non-empty run of decimal digits.
pub open spec fn is_decimal(s: Seq<char>) -> bool {
    s.len() > 0 && forall|i: int| 0 <= i < s.len() ==> is_decimal_digit(#[trigger] s[i])
}

/// The number that a run of decimal digits writes, most significant digit first.
pub open spec fn decimal_value(s: Seq<char>) -> nat
    decreases s.len(),
{
    if s.len() == 0 {
        0
    } else {
        decimal_value(s.drop_last()) * 10 + (s.last() as nat - '0' as nat) as nat
    }
}

/// Whether a text names a port: decimal digits whose value is at most the largest port.
pub open spec fn is_port_text(s: Seq<char>) -> bool {
    is_decimal(s) && decimal_value(s) <= MAX_PORT
}

/// A run of characters never writes a smaller number than any of its prefixes.
proof fn lemma_decimal_value_prefix(s: Seq<char>, k: int)
    requires
        0 <= k <= s.len(),
    ensures
        decimal_value(s.subrange(0, k)) <= decimal_value(s),
    decreases s.len(),
{
    if k < s.len() {
        assert(s.drop_last() =~= s.subrange(0, s.len() - 1));
        assert(s.subrange(0, k) =~= s.drop_last().subrange(0, k));
        lemma_decimal_value_prefix(s.drop_last(), k);
    } else {
        assert(s.subrange(0, k) =~= s);
    }
}

/// Reads a port number written in decimal. Leading zeros are allowed; signs, blanks
/// and values above the largest port are not.
pub fn parse_port(text: &str) -> (r: Option<u16>)
    ensures
        r is Some <==> is_port_text(text@),
        r is Some ==> r->0 as nat == decimal_value(text@),
{
    if text.is_empty() || !text.is_ascii() {
        proof {
            if is_decimal(text@) {
                assert forall|k: int| 0 <= k < text@.len() implies '\0' <= #[trigger] text@[k]
                    <= '\u{7f}' by {
                    assert(is_decimal_digit(text@[k]));
                }
                assert(vstd::string::is_ascii(text));
            }
        }
        return None;
    }
    let bytes = text.as_bytes();
    let n = bytes.len();
    let mut value: u32 = 0;
    let mut i: usize = 0;
    while i < n
        invariant
            n == bytes@.len(),
            n == text@.len(),
            n > 0,
            bytes@ =~= Seq::new(text@.len(), |k: int| text@[k] as u8),
            vstd::string::is_ascii(text),
            0 <= i <= n,
            forall|k: int| 0 <= k < i ==> is_decimal_digit(#[trigger] text@[k]),
            value as nat == decimal_value(text@.subrange(0, i as int)),
            value <= MAX_PORT,
        decreases n - i,
    {
        let b = bytes[i];
        let ghost c = text@[i as int];
        assert(b == c as u8);
        assert('\0' <= c <= '\u{7f}');
        assert(b as nat == c as nat);
        if b < 48 || b > 57 {
            assert(!is_decimal_digit(c));
            return None;
        }
        let digit: u32 = (b - 48) as u32;
        let ghost next = text@.subrange(0, i + 1);
        assert(next.drop_last() =~= text@.subrange(0, i as int));
        assert(next.last() == c);
        assert(decimal_value(next) == value * 10 + digit);
        if value > (MAX_PORT - digit) / 10 {
            proof {
                lemma_decimal_value_prefix(text@, i + 1);
            }
            return None;
        }
        value = value * 10 + digit;
        i = i + 1;
    }
    assert(text@.subrange(0, n as int) =~= text@);
    Some(value as u16)
}

/// The host to listen on: the configured one, else every interface.
pub fn resolve_host(setting: Option<&str>) -> (r: String)
    ensures
        setting is None ==> r@ == DEFAULT_HOST@,
        setting is Some ==> r@ == setting->0@,
{
    match setting {
        Some(host) => String::from_str(host),
        None => String::from_str(DEFAULT_HOST),
    }
}

/// The port to listen on: the configured one, else the default. `None` where the
/// configured text names no port.
pub fn resolve_port(setting: Option<&str>) -> (r: Option<u16>)
    ensures
        setting is None ==> r == Some(DEFAULT_PORT),
        setting is Some ==> (r is Some <==> is_port_text(setting->0@)),
        setting is Some && r is Some ==> r->0 as nat == decimal_value(setting->0@),
{
    match setting {
        Some(text) => parse_port(text),
        None => Some(DEFAULT_PORT),
    }
}

} // verus!
