//! Service configuration, from the values of its environment variables.
use vstd::prelude::*;

use crate::text::{chars_of, is_ascii_digit};

verus! {

/// The value of a run of ASCII decimal digits.
pub open spec fn decimal_value(d: Seq<char>) -> nat
    decreases d.len(),
{
    if d.len() == 0 {
        0
    } else {
        decimal_value(d.drop_last()) * 10 + ((d.last() as u32) - ('0' as u32)) as nat
    }
}

/// `s` without the `+` sign it may open with.
pub open spec fn unsigned_part(s: Seq<char>) -> Seq<char> {
    if s.len() > 0 && s[0] == '+' {
        s.drop_first()
    } else {
        s
    }
}

/// `d` is made of ASCII digits only.
pub open spec fn all_ascii_digits(d: Seq<char>) -> bool {
    forall|i: int| 0 <= i < d.len() ==> is_ascii_digit(#[trigger] d[i])
}

/// What `str::parse::<u16>` accepts: an optional `+` and then at least one
/// ASCII digit, of value at most 65535.
pub open spec fn parsed_u16(s: Seq<char>) -> Option<u16> {
    let d = unsigned_part(s);
    if d.len() > 0 && all_ascii_digits(d) && decimal_value(d) <= 65535 {
        Some(decimal_value(d) as u16)
    } else {
        None
    }
}

proof fn lemma_decimal_prefix(d: Seq<char>, j: int)
    requires
        0 <= j <= d.len(),
        forall|i: int| 0 <= i < d.len() ==> is_ascii_digit(#[trigger] d[i]),
    ensures
        decimal_value(d.take(j)) <= decimal_value(d),
    decreases d.len(),
{
    if j < d.len() {
        let init = d.drop_last();
        assert forall|i: int| 0 <= i < init.len() implies is_ascii_digit(#[trigger] init[i]) by {
            assert(init[i] == d[i]);
        }
        lemma_decimal_prefix(init, j);
        assert(init.take(j) =~= d.take(j));
    } else {
        assert(d.take(j) =~= d);
    }
}

/// Reads a port number as `str::parse::<u16>` does for unsigned integers: an
/// optional `+` sign followed by decimal digits, failing when there are none,
/// on any other character, or when the value exceeds 65535.
fn parse_u16(s: &str) -> (r: Option<u16>)
    ensures
        r == parsed_u16(s@),
{
    let chars = chars_of(s);
    let n = chars.len();
    let start: usize = if n > 0 && chars[0] == '+' {
        1
    } else {
        0
    };
    let ghost d = unsigned_part(s@);
    assert(d =~= s@.subrange(start as int, n as int));
    if start == n {
        return None;
    }
    let mut v: u32 = 0;
    let mut i: usize = start;
    while i < n
        invariant
            start <= i <= n,
            n == s@.len(),
            chars@ == s@,
            d == s@.subrange(start as int, n as int),
            d == unsigned_part(s@),
            forall|j: int| 0 <= j < i - start ==> is_ascii_digit(#[trigger] d[j]),
            v == decimal_value(d.take(i - start)),
            v <= 65535,
        decreases n - i,
    {
        let c = chars[i];
        assert(d[i - start] == c);
        if !('0' <= c && c <= '9') {
            assert(!is_ascii_digit(d[i - start]));
            return None;
        }
        let digit: u32 = (c as u32) - ('0' as u32);
        let nv: u32 = v * 10 + digit;
        assert(d.take(i - start + 1).drop_last() =~= d.take(i - start));
        assert(nv == decimal_value(d.take(i - start + 1)));
        if nv > 65535 {
            proof {
                if all_ascii_digits(d) {
                    lemma_decimal_prefix(d, i - start + 1);
                    assert(decimal_value(d) > 65535);
                }
            }
            return None;
        }
        v = nv;
        i = i + 1;
    }
    assert(d.take(d.len() as int) =~= d);
    Some(v as u16)
}

/// The service's settings.
#[derive(Debug, Clone)]
pub struct Config {
    pub host: String,
    pub port: u16,
    pub ai_provider: String,
    pub gemini_api_key: Option<String>,
    pub minimax_api_key: Option<String>,
    pub upload_dir: String,
    pub database_url: Option<String>,
}

pub open spec fn opt_str_view(o: Option<String>) -> Option<Seq<char>> {
    match o {
        Some(s) => Some(s@),
        None => None,
    }
}

/// `value`, or `default` when it is absent.
pub open spec fn or_default(value: Option<String>, default: Seq<char>) -> Seq<char> {
    match value {
        Some(s) => s@,
        None => default,
    }
}

/// The port: the value of `PORT` when it parses as a port number, else 8080.
pub open spec fn port_setting(port: Option<String>) -> u16 {
    match port {
        Some(p) => match parsed_u16(p@) {
            Some(n) => n,
            None => 8080,
        },
        None => 8080,
    }
}

fn value_or(value: Option<String>, default: &str) -> (r: String)
    ensures
        r@ == or_default(value, default@),
{
    match value {
        Some(s) => s,
        None => String::from_str(default),
    }
}

impl Config {
    /// The configuration from the values of `HOST`, `PORT`, `AI_PROVIDER`,
    /// `GEMINI_API_KEY`, `MINIMAX_API_KEY`, `UPLOAD_DIR` and `DATABASE_URL`
    /// (`None` for a variable that is unset): host "0.0.0.0", port 8080,
    /// provider "gemini" and upload directory "./uploads" by default.
    pub fn from_env_values(
        host: Option<String>,
        port: Option<String>,
        ai_provider: Option<String>,
        gemini_api_key: Option<String>,
        minimax_api_key: Option<String>,
        upload_dir: Option<String>,
        database_url: Option<String>,
    ) -> (c: Config)
        ensures
            c.host@ == or_default(host, "0.0.0.0"@),
            c.port == port_setting(port),
            c.ai_provider@ == or_default(ai_provider, "gemini"@),
            c.gemini_api_key == gemini_api_key,
            c.minimax_api_key == minimax_api_key,
            c.upload_dir@ == or_default(upload_dir, "./uploads"@),
            c.database_url == database_url,
    {
        let port_number = match port {
            Some(p) => match parse_u16(p.as_str()) {
                Some(n) => n,
                None => 8080,
            },
            None => 8080,
        };
        Config {
            host: value_or(host, "0.0.0.0"),
            port: port_number,
            ai_provider: value_or(ai_provider, "gemini"),
            gemini_api_key,
            minimax_api_key,
            upload_dir: value_or(upload_dir, "./uploads"),
            database_url,
        }
    }
}

} // verus!
