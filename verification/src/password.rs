//! Password subsystem: a deterministic one-way transform from clear text to
//! a stored hash string, and verification of a candidate against it.
//!
//! Clear text is never stored: only the hash string is. A malformed stored
//! hash makes verification fail with `PasswordError`, never a panic.

use vstd::prelude::*;
use vstd::wrapping::u64_specs;

use crate::ascii::ascii_bytes_to_string;

verus! {

/// A credential failure: empty clear text on input, or a stored hash that is
/// not in the hash format.
#[derive(Clone, Copy, PartialEq, Eq, Structural, Debug)]
pub enum PasswordError {
    EmptyClearText,
    MalformedHash,
}

/// The digest of the first `n` characters: a 64-bit fold of the character
/// codes, wrapping on overflow.
pub open spec fn digest_prefix(s: Seq<char>, n: int) -> u64
    decreases n,
{
    if n <= 0 {
        5381u64
    } else {
        u64_specs::wrapping_add(
            u64_specs::wrapping_mul(digest_prefix(s, n - 1), 33),
            s[n - 1] as u64,
        )
    }
}

/// The digest of a whole clear text.
pub open spec fn digest(s: Seq<char>) -> u64 {
    digest_prefix(s, s.len() as int)
}

/// The hexadecimal character for a value below 16.
pub open spec fn hex_digit(d: int) -> char {
    if d < 10 {
        ((48 + d) as u8) as char
    } else {
        ((87 + d) as u8) as char
    }
}

/// `n` hexadecimal characters of `x`, least significant first.
pub open spec fn hex_seq(x: int, n: int) -> Seq<char>
    decreases n,
{
    if n <= 0 {
        Seq::<char>::empty()
    } else {
        seq![hex_digit(x % 16)] + hex_seq(x / 16, n - 1)
    }
}

/// The stored hash of a clear text: sixteen hexadecimal characters of its
/// digest, least significant first.
pub open spec fn hash_of(s: Seq<char>) -> Seq<char> {
    hex_seq(digest(s) as int, 16)
}

/// Whether a character is a lower-case hexadecimal digit.
pub open spec fn is_hex_char(c: char) -> bool {
    (48 <= c as u32 && c as u32 <= 57) || (97 <= c as u32 && c as u32 <= 102)
}

/// The format every well-formed stored hash has: exactly sixteen lower-case
/// hexadecimal characters.
pub open spec fn is_hash_format(s: Seq<char>) -> bool {
    s.len() == 16 && forall|i: int| 0 <= i < 16 ==> is_hex_char(#[trigger] s[i])
}

proof fn lemma_hex_seq_format(x: int, n: int)
    requires
        0 <= x,
        0 <= n,
    ensures
        hex_seq(x, n).len() == n,
        forall|i: int| 0 <= i < n ==> is_hex_char(#[trigger] hex_seq(x, n)[i]),
    decreases n,
{
    if n > 0 {
        lemma_hex_seq_format(x / 16, n - 1);
        assert forall|i: int| 0 <= i < n implies is_hex_char(#[trigger] hex_seq(x, n)[i]) by {
            if i == 0 {
                assert(0 <= x % 16 < 16);
            } else {
                assert(hex_seq(x, n)[i] == hex_seq(x / 16, n - 1)[i - 1]);
            }
        }
    }
}

/// Every hash the subsystem produces is in the hash format.
pub proof fn lemma_hash_well_formed(s: Seq<char>)
    ensures
        is_hash_format(hash_of(s)),
{
    lemma_hex_seq_format(digest(s) as int, 16);
}

/// Computes the digest of a string.
fn digest_of(s: &str) -> (r: u64)
    ensures
        r == digest(s@),
{
    let n = s.unicode_len();
    let mut h: u64 = 5381;
    let mut i: usize = 0;
    while i < n
        invariant
            n == s@.len(),
            i <= n,
            h == digest_prefix(s@, i as int),
        decreases n - i,
    {
        let c = s.get_char(i);
        h = h.wrapping_mul(33).wrapping_add(c as u64);
        i = i + 1;
    }
    h
}

/// Renders a digest as the stored hash string.
fn render_hash(d: u64) -> (r: String)
    ensures
        r@ == hex_seq(d as int, 16),
        r@.len() == 16,
{
    let ghost full = hex_seq(d as int, 16);
    proof {
        lemma_hex_seq_format(d as int, 16);
    }
    let mut out: Vec<u8> = Vec::new();
    let mut x: u64 = d;
    let mut k: usize = 0;
    while k < 16
        invariant
            full == hex_seq(d as int, 16),
            full.len() == 16,
            k <= 16,
            out@.len() == k,
            forall|j: int|
                0 <= j < out@.len() ==> (#[trigger] out@[j]) < 128 && out@[j] as char == full[j],
            hex_seq(x as int, 16 - k as int) =~= full.skip(k as int),
        decreases 16 - k,
    {
        let ghost oldx = x as int;
        let ghost rest = hex_seq(oldx, 16 - k as int);
        let digit = (x % 16) as u8;
        let b: u8 = if digit < 10 {
            48 + digit
        } else {
            87 + digit
        };
        proof {
            assert(rest =~= full.skip(k as int));
            assert(rest == seq![hex_digit(oldx % 16)] + hex_seq(oldx / 16, 16 - k as int - 1));
            assert(rest[0] == hex_digit(oldx % 16));
            assert(full[k as int] == full.skip(k as int)[0]);
            assert(b < 128 && b as char == hex_digit(oldx % 16));
        }
        out.push(b);
        x = x / 16;
        proof {
            assert(x as int == oldx / 16);
            let nrest = hex_seq(x as int, 16 - (k as int + 1));
            assert forall|j: int| 0 <= j < 16 - (k as int + 1) implies #[trigger] nrest[j]
                == full.skip(k as int + 1)[j] by {
                assert(nrest[j] == rest[j + 1]);
                assert(rest[j + 1] == full.skip(k as int)[j + 1]);
                assert(full.skip(k as int)[j + 1] == full[k as int + 1 + j]);
                assert(full.skip(k as int + 1)[j] == full[k as int + 1 + j]);
            }
            assert(nrest.len() == 16 - (k as int + 1)) by {
                lemma_hex_seq_format(x as int, 16 - (k as int + 1));
            }
            assert(nrest =~= full.skip(k as int + 1));
        }
        k = k + 1;
    }
    let r = ascii_bytes_to_string(out);
    assert(r@ =~= full);
    r
}

/// Compares two sixteen-character strings by walking every position, with
/// no early exit, as a credential comparison intends. What verification
/// models is the result, not the timing.
fn compare_full(a: &str, b: &str) -> (r: bool)
    requires
        a@.len() == 16,
        b@.len() == 16,
    ensures
        r == (a@ == b@),
{
    let mut mismatches: u32 = 0;
    let mut i: usize = 0;
    while i < 16
        invariant
            a@.len() == 16,
            b@.len() == 16,
            i <= 16,
            mismatches <= i,
            (mismatches == 0) == (forall|j: int| 0 <= j < i ==> a@[j] == b@[j]),
        decreases 16 - i,
    {
        let eq = a.get_char(i) == b.get_char(i);
        mismatches = mismatches + (if eq {
            0
        } else {
            1
        });
        i = i + 1;
    }
    let same = mismatches == 0;
    proof {
        if same {
            assert(a@ =~= b@);
        }
    }
    same
}

/// A clear-text password, known to be non-empty.
pub struct Password {
    clear: String,
}

/// A stored password hash, as read back from storage; it may be malformed.
pub struct HashedPassword {
    value: String,
}

impl Password {
    /// The clear text this password wraps.
    pub closed spec fn clear_text(&self) -> Seq<char> {
        self.clear@
    }

    /// Wraps clear text, rejecting an empty password.
    pub fn from_clear_text(clear: String) -> (r: Result<Password, PasswordError>)
        ensures
            r matches Ok(p) ==> p.clear_text() == clear@,
            r is Ok <==> clear@.len() > 0,
            r matches Err(e) ==> e == PasswordError::EmptyClearText,
    {
        if clear.as_str().is_empty() {
            Err(PasswordError::EmptyClearText)
        } else {
            Ok(Password { clear })
        }
    }

    /// The one-way transform: deterministic, and never failing.
    pub fn hash(&self) -> (r: HashedPassword)
        ensures
            r.stored() == hash_of(self.clear_text()),
    {
        let d = digest_of(self.clear.as_str());
        HashedPassword { value: render_hash(d) }
    }
}

impl HashedPassword {
    /// The stored hash string.
    pub closed spec fn stored(&self) -> Seq<char> {
        self.value@
    }

    /// Wraps a hash string as it was read back from storage.
    pub fn from_hash(value: String) -> (r: HashedPassword)
        ensures
            r.stored() == value@,
    {
        HashedPassword { value }
    }

    /// Hands the hash string out, for storage.
    pub fn into_string(self) -> (r: String)
        ensures
            r@ == self.stored(),
    {
        self.value
    }

    /// Verifies a candidate clear text against the stored hash. A stored
    /// hash that is not in the hash format is malformed and never matches:
    /// it yields `PasswordError` instead of a panic.
    pub fn verify(&self, candidate: &str) -> (r: Result<bool, PasswordError>)
        ensures
            is_hash_format(self.stored()) ==> (r matches Ok(b) && b == (self.stored() == hash_of(
                candidate@,
            ))),
            !is_hash_format(self.stored()) ==> (r matches Err(e) && e
                == PasswordError::MalformedHash),
    {
        if !self.well_formed() {
            return Err(PasswordError::MalformedHash);
        }
        let d = digest_of(candidate);
        let rendered = render_hash(d);
        let b = compare_full(self.value.as_str(), rendered.as_str());
        Ok(b)
    }

    /// Checks the hash format.
    fn well_formed(&self) -> (r: bool)
        ensures
            r == is_hash_format(self.stored()),
    {
        let s = self.value.as_str();
        let n = s.unicode_len();
        if n != 16 {
            return false;
        }
        let mut i: usize = 0;
        while i < 16
            invariant
                n == s@.len(),
                n == 16,
                s@ == self.stored(),
                i <= 16,
                forall|j: int| 0 <= j < i ==> is_hex_char(#[trigger] s@[j]),
            decreases 16 - i,
        {
            let c = s.get_char(i);
            let code = c as u32;
            if !((48 <= code && code <= 57) || (97 <= code && code <= 102)) {
                return false;
            }
            i = i + 1;
        }
        true
    }
}

} // verus!
