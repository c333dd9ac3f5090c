//! Token claims and their encoding. The core never parses transport: it
//! takes a header value or a token string and hands back a resolved
//! identity. The signing secret is a parameter, never a constant.

use vstd::prelude::*;

verus! {

/// The claims a token carries: the subject's user id and the expiry
/// instant in seconds since the epoch.
pub struct Claims {
    sub: u128,
    exp: u64,
}

impl Claims {
    /// The subject.
    pub closed spec fn spec_sub(&self) -> u128 {
        self.sub
    }

    /// The expiry instant.
    pub closed spec fn spec_exp(&self) -> u64 {
        self.exp
    }

    /// The user id the claims resolve to.
    pub fn user_id(&self) -> (r: u128)
        ensures
            r == self.spec_sub(),
    {
        self.sub
    }
}

/// Relies on `std::time::SystemTime::now`: the clock reading is seconds
/// since the epoch, and nothing is promised of its value.
#[verifier::external_body]
fn now_unix_seconds() -> u64 {
    match std::time::SystemTime::now().duration_since(std::time::UNIX_EPOCH) {
        Ok(d) => d.as_secs(),
        Err(_) => 0,
    }
}

/// An instant at least `secs` seconds from now, saturating at the largest
/// representable instant.
pub fn seconds_from_now(secs: u64) -> (r: u64)
    ensures
        r >= secs,
{
    let now = now_unix_seconds();
    if now > u64::MAX - secs {
        u64::MAX
    } else {
        now + secs
    }
}

/// Claims for this user, expiring no earlier than `expire_in` seconds from
/// now.
pub fn claims_for(user_id: u128, expire_in: u64) -> (c: Claims)
    ensures
        c.spec_sub() == user_id,
        c.spec_exp() >= expire_in,
{
    Claims { sub: user_id, exp: seconds_from_now(expire_in) }
}

/// The token that encodes these claims under this secret: a function of
/// its arguments alone.
pub uninterp spec fn token_of(sub: u128, exp: u64, secret: Seq<char>) -> Seq<char>;

/// Relies on `jsonwebtoken::encode`: an HMAC-SHA256 token over a fixed
/// header and the claims' canonical serialization, deterministic in the
/// claims and the secret, and infallible for an HMAC secret.
#[verifier::external_body]
fn encode_claims(sub: u128, exp: u64, secret: &str) -> (r: String)
    ensures
        r@ == token_of(sub, exp, secret@),
{
    let mut claims = serde_json::Map::new();
    claims.insert("sub".to_string(), serde_json::Value::String(sub.to_string()));
    claims.insert("exp".to_string(), serde_json::Value::Number(serde_json::Number::from(exp)));
    let key = jsonwebtoken::EncodingKey::from_secret(secret.as_bytes());
    match jsonwebtoken::encode(&jsonwebtoken::Header::default(), &claims, &key) {
        Ok(token) => token,
        Err(_) => String::new(),
    }
}

/// Relies on `jsonwebtoken::decode`: the result depends on the token, the
/// secret and the clock (expiry validation), so nothing is promised of it.
#[verifier::external_body]
fn decode_claims(token: &str, secret: &str) -> Option<Claims>
{
    let key = jsonwebtoken::DecodingKey::from_secret(secret.as_bytes());
    let validation = jsonwebtoken::Validation::default();
    let data = jsonwebtoken::decode::<serde_json::Value>(token, &key, &validation).ok()?;
    let sub = data.claims.get("sub")?.as_str()?.parse::<u128>().ok()?;
    let exp = data.claims.get("exp")?.as_u64()?;
    Option::Some(Claims { sub, exp })
}

/// Encodes a token for this user under this secret, valid for an hour.
pub fn encode_token(sub: u128, secret: &str) -> (r: String)
    ensures
        exists|exp: u64| r@ == token_of(sub, exp, secret@) && exp >= 3600,
{
    let claims = claims_for(sub, 3600);
    let exp = claims.exp;
    let r = encode_claims(sub, exp, secret);
    proof {
        assert(r@ == token_of(sub, exp, secret@) && exp >= 3600);
    }
    r
}

/// Where the token stands in an authorization header value: after the
/// first space, up to the next space or the end; absent when the value
/// holds no space.
pub open spec fn spec_token_part(s: Seq<char>) -> Option<(int, int)> {
    if exists|i: int| 0 <= i < s.len() && s[i] == ' ' {
        let i = choose|i: int|
            0 <= i < s.len() && #[trigger] s[i] == ' ' && (forall|j: int|
                0 <= j < i ==> s[j] != ' ');
        if exists|k: int| i < k < s.len() && s[k] == ' ' {
            let k = choose|k: int|
                i < k < s.len() && #[trigger] s[k] == ' ' && (forall|j: int|
                    i < j < k ==> s[j] != ' ');
            Option::Some((i + 1, k))
        } else {
            Option::Some((i + 1, s.len() as int))
        }
    } else {
        Option::None
    }
}

/// Finds the first space at or after `from`.
fn find_space(s: &str, from: usize) -> (r: Option<usize>)
    requires
        from <= s@.len(),
    ensures
        r matches Some(i) ==> from <= i < s@.len() && s@[i as int] == ' ' && (forall|j: int|
            from <= j < i ==> s@[j] != ' '),
        r is None ==> (forall|j: int| from <= j < s@.len() ==> s@[j] != ' '),
{
    let n = s.unicode_len();
    let mut i = from;
    while i < n
        invariant
            n == s@.len(),
            from <= i <= n,
            forall|j: int| from <= j < i ==> s@[j] != ' ',
        decreases n - i,
    {
        if s.get_char(i) == ' ' {
            return Some(i);
        }
        i = i + 1;
    }
    None
}

/// Extracts the token from an authorization header value: the part after
/// the scheme word, as `split` on spaces would hand it out.
pub fn extract_token(header: &str) -> (r: Option<&str>)
    ensures
        r is Some <==> spec_token_part(header@) is Some,
        r matches Some(t) ==> {
            let (lo, hi) = spec_token_part(header@).unwrap();
            t@ == header@.subrange(lo, hi)
        },
{
    let n = header.unicode_len();
    let first = match find_space(header, 0) {
        Some(i) => i,
        None => {
            return None;
        },
    };
    let hi = match find_space(header, first + 1) {
        Some(k) => k,
        None => n,
    };
    let t = header.substring_char(first + 1, hi);
    proof {
        let s = header@;
        let i = choose|i: int|
            0 <= i < s.len() && #[trigger] s[i] == ' ' && (forall|j: int|
                0 <= j < i ==> s[j] != ' ');
        assert(i == first) by {
            if i < first {
                assert(s[i] != ' ');
            }
            if first < i {
                assert(s[first as int] != ' ');
            }
        }
        if exists|k: int| i < k < s.len() && s[k] == ' ' {
            let k = choose|k: int|
                i < k < s.len() && #[trigger] s[k] == ' ' && (forall|j: int|
                    i < j < k ==> s[j] != ' ');
            assert(k == hi) by {
                if k < hi {
                    assert(s[k] != ' ');
                }
                if hi < k {
                    assert(s[hi as int] == ' ');
                    assert(s[hi as int] != ' ');
                }
            }
        } else {
            assert(hi == n) by {
                if hi < n {
                    assert(s[hi as int] == ' ');
                }
            }
        }
    }
    Some(t)
}

/// Resolves a caller identity from an authorization header value: extracts
/// the token and decodes its claims under the secret. A header without a
/// token part resolves to nothing.
pub fn extract_claims(header: &str, secret: &str) -> (r: Option<Claims>)
    ensures
        spec_token_part(header@) is None ==> r is None,
{
    let token = match extract_token(header) {
        Some(t) => t,
        None => {
            return None;
        },
    };
    decode_claims(token, secret)
}

} // verus!
