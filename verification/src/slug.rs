//! Slug derivation: a URL-safe identifier computed from an article title.
//!
//! The slug is a pure function of the title: ASCII letters and digits are
//! kept (letters lower-cased), every other run of characters collapses to a
//! single hyphen, and no hyphen appears at either end.

use vstd::prelude::*;

use crate::ascii::ascii_bytes_to_string;

verus! {

/// A title character is kept in the slug when it is an ASCII letter or digit.
pub open spec fn is_slug_keep(c: char) -> bool {
    (97 <= c as u32 && c as u32 <= 122)  // 'a' ..= 'z'
    || (48 <= c as u32 && c as u32 <= 57)  // '0' ..= '9'
    || (65 <= c as u32 && c as u32 <= 90)  // 'A' ..= 'Z'
}

/// ASCII upper-case letters map to lower case; every other kept character stays.
pub open spec fn slug_lower(c: char) -> char {
    if 65 <= c as u32 && c as u32 <= 90 {
        ((c as u32 + 32) as u8) as char
    } else {
        c
    }
}

/// The slug of the first `n` title characters.
pub open spec fn slug_prefix(t: Seq<char>, n: int) -> Seq<char>
    decreases n,
{
    if n <= 0 {
        Seq::<char>::empty()
    } else {
        let prev = slug_prefix(t, n - 1);
        if is_slug_keep(t[n - 1]) {
            if slug_sep_pending(t, n - 1) {
                prev + seq!['-', slug_lower(t[n - 1])]
            } else {
                prev + seq![slug_lower(t[n - 1])]
            }
        } else {
            prev
        }
    }
}

/// Whether a hyphen separator is owed after the first `n` title characters:
/// some character was already kept and a dropped character followed it.
pub open spec fn slug_sep_pending(t: Seq<char>, n: int) -> bool
    decreases n,
{
    if n <= 0 {
        false
    } else if is_slug_keep(t[n - 1]) {
        false
    } else {
        slug_prefix(t, n - 1).len() > 0 || slug_sep_pending(t, n - 1)
    }
}

/// The slug of a whole title.
pub open spec fn slug_of(t: Seq<char>) -> Seq<char> {
    slug_prefix(t, t.len() as int)
}

/// Slug determinism: string-equal titles always derive the same slug.
pub proof fn lemma_slug_deterministic(t1: Seq<char>, t2: Seq<char>)
    requires
        t1 == t2,
    ensures
        slug_of(t1) == slug_of(t2),
{
}

/// Derives the slug of a title.
pub fn slugify(title: &str) -> (r: String)
    ensures
        r@ == slug_of(title@),
{
    let ghost t = title@;
    let n = title.unicode_len();
    let mut out: Vec<u8> = Vec::new();
    let mut pending = false;
    let mut i: usize = 0;
    while i < n
        invariant
            n == t.len(),
            t == title@,
            i <= n,
            pending == slug_sep_pending(t, i as int),
            out@.len() == slug_prefix(t, i as int).len(),
            forall|j: int|
                0 <= j < out@.len() ==> (#[trigger] out@[j]) < 128 && out@[j] as char
                    == slug_prefix(t, i as int)[j],
        decreases n - i,
    {
        let c = title.get_char(i);
        let code = c as u32;
        let ghost prev = slug_prefix(t, i as int);
        let ghost cur = slug_prefix(t, i as int + 1);
        let keep = (97 <= code && code <= 122) || (48 <= code && code <= 57) || (65 <= code && code
            <= 90);
        if keep {
            let lower: u8 = if 65 <= code && code <= 90 {
                (code + 32) as u8
            } else {
                code as u8
            };
            assert(lower < 128 && lower as char == slug_lower(t[i as int]));
            if pending {
                out.push(45);  // '-'
            }
            out.push(lower);
            pending = false;
            proof {
                assert(45 as char == '-');
                assert(out@.len() == cur.len());
                assert forall|j: int| 0 <= j < out@.len() implies (#[trigger] out@[j]) < 128
                    && out@[j] as char == cur[j] by {
                    if j < prev.len() {
                        assert(cur[j] == prev[j]);
                    }
                }
            }
        } else {
            if out.len() > 0 {
                pending = true;
            }
            assert(cur == prev);
        }
        i = i + 1;
    }
    let r = ascii_bytes_to_string(out);
    assert(r@ =~= slug_of(t));
    r
}

} // verus!
