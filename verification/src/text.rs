//! Byte-level text helpers: ASCII case folding, case-insensitive equality
//! and substring search.
//!
//! Chart projection definitions and airport identifiers are plain ASCII, so
//! the viewer folds case byte by byte.

use vstd::prelude::*;

verus! {

/// The UTF-8 bytes of a character sequence; ASCII text is one byte per
/// character.
pub open spec fn str_bytes(s: Seq<char>) -> Seq<u8> {
    vstd::utf8::encode_utf8(s)
}

/// ASCII lower-case image of one byte.
pub open spec fn lower_byte(b: u8) -> u8 {
    if 65 <= b <= 90 {
        (b + 32) as u8
    } else {
        b
    }
}

/// ASCII upper-case image of one byte.
pub open spec fn upper_byte(b: u8) -> u8 {
    if 97 <= b <= 122 {
        (b - 32) as u8
    } else {
        b
    }
}

/// ASCII lower-case image of a byte sequence.
pub open spec fn lower_bytes(s: Seq<u8>) -> Seq<u8> {
    s.map_values(|b: u8| lower_byte(b))
}

/// ASCII upper-case image of a byte sequence.
pub open spec fn upper_bytes(s: Seq<u8>) -> Seq<u8> {
    s.map_values(|b: u8| upper_byte(b))
}

/// `needle` occurs in `hay` starting at offset `i`.
pub open spec fn matches_at(hay: Seq<u8>, needle: Seq<u8>, i: int) -> bool {
    &&& 0 <= i
    &&& i + needle.len() <= hay.len()
    &&& forall|j: int| 0 <= j < needle.len() ==> hay[i + j] == needle[j]
}

/// `needle` occurs somewhere in `hay`.
pub open spec fn contains_seq(hay: Seq<u8>, needle: Seq<u8>) -> bool {
    exists|i: int| matches_at(hay, needle, i)
}

/// ASCII lower-case copy of `s`.
pub fn to_lower(s: &[u8]) -> (r: Vec<u8>)
    ensures
        r@ == lower_bytes(s@),
{
    let mut r: Vec<u8> = Vec::new();
    let mut i: usize = 0;
    while i < s.len()
        invariant
            i <= s@.len(),
            r@ == lower_bytes(s@.take(i as int)),
        decreases s@.len() - i,
    {
        let b = s[i];
        if 65 <= b && b <= 90 {
            r.push(b + 32);
        } else {
            r.push(b);
        }
        proof {
            assert(s@.take(i + 1).drop_last() == s@.take(i as int));
            assert(r@ =~= lower_bytes(s@.take(i + 1)));
        }
        i = i + 1;
    }
    proof {
        assert(s@.take(s@.len() as int) == s@);
    }
    r
}

/// ASCII upper-case copy of `s`.
pub fn to_upper(s: &[u8]) -> (r: Vec<u8>)
    ensures
        r@ == upper_bytes(s@),
{
    let mut r: Vec<u8> = Vec::new();
    let mut i: usize = 0;
    while i < s.len()
        invariant
            i <= s@.len(),
            r@ == upper_bytes(s@.take(i as int)),
        decreases s@.len() - i,
    {
        let b = s[i];
        if 97 <= b && b <= 122 {
            r.push(b - 32);
        } else {
            r.push(b);
        }
        proof {
            assert(s@.take(i + 1).drop_last() == s@.take(i as int));
            assert(r@ =~= upper_bytes(s@.take(i + 1)));
        }
        i = i + 1;
    }
    proof {
        assert(s@.take(s@.len() as int) == s@);
    }
    r
}

/// Whether `needle` occurs in `hay` as a contiguous run of bytes.
pub fn contains_bytes(hay: &[u8], needle: &[u8]) -> (r: bool)
    ensures
        r == contains_seq(hay@, needle@),
{
    if needle.len() > hay.len() {
        return false;
    }
    if needle.len() == 0 {
        proof {
            assert(matches_at(hay@, needle@, 0));
        }
        return true;
    }
    let last = hay.len() - needle.len();
    let mut i: usize = 0;
    while i <= last
        invariant
            1 <= needle@.len() <= hay@.len(),
            hay@.len() <= usize::MAX,
            last == hay@.len() - needle@.len(),
            i <= last + 1,
            forall|k: int| 0 <= k < i ==> !matches_at(hay@, needle@, k),
        decreases last + 1 - i,
    {
        let mut j: usize = 0;
        let mut hit = true;
        while j < needle.len()
            invariant
                needle@.len() <= hay@.len(),
                hay@.len() <= usize::MAX,
                i + needle@.len() <= hay@.len(),
                j <= needle@.len(),
                hit == forall|k: int| 0 <= k < j ==> hay@[i + k] == needle@[k],
            decreases needle@.len() - j,
        {
            if hay[i + j] != needle[j] {
                hit = false;
                proof {
                    assert(!(forall|k: int| 0 <= k < j + 1 ==> hay@[i + k] == needle@[k])) by {
                        assert(hay@[i + j as int] != needle@[j as int]);
                    }
                }
                j = needle.len();
            } else {
                proof {
                    if hit {
                        assert(forall|k: int| 0 <= k < j + 1 ==> hay@[i + k] == needle@[k]) by {
                            assert(hay@[i + j as int] == needle@[j as int]);
                        }
                    }
                }
                j = j + 1;
            }
        }
        if hit {
            assert(matches_at(hay@, needle@, i as int));
            return true;
        }
        i = i + 1;
    }
    proof {
        assert forall|k: int| !matches_at(hay@, needle@, k) by {
            if 0 <= k <= last as int {
                assert(!matches_at(hay@, needle@, k));
            }
        }
    }
    false
}

/// Whether two byte strings are equal.
pub fn bytes_eq(a: &[u8], b: &[u8]) -> (r: bool)
    ensures
        r == (a@ == b@),
{
    if a.len() != b.len() {
        return false;
    }
    let mut i: usize = 0;
    while i < a.len()
        invariant
            a@.len() == b@.len(),
            i <= a@.len(),
            forall|k: int| 0 <= k < i ==> a@[k] == b@[k],
        decreases a@.len() - i,
    {
        if a[i] != b[i] {
            proof {
                assert(a@[i as int] != b@[i as int]);
            }
            return false;
        }
        i = i + 1;
    }
    proof {
        assert(a@ =~= b@);
    }
    true
}

/// Whether two byte strings are equal after ASCII upper-casing both.
pub fn eq_ignore_ascii_case_bytes(a: &[u8], b: &[u8]) -> (r: bool)
    ensures
        r == (upper_bytes(a@) == upper_bytes(b@)),
{
    if a.len() != b.len() {
        proof {
            assert(upper_bytes(a@).len() != upper_bytes(b@).len());
        }
        return false;
    }
    let mut i: usize = 0;
    while i < a.len()
        invariant
            a@.len() == b@.len(),
            i <= a@.len(),
            forall|k: int| 0 <= k < i ==> upper_byte(a@[k]) == upper_byte(b@[k]),
        decreases a@.len() - i,
    {
        let x = a[i];
        let y = b[i];
        let ux = if 97 <= x && x <= 122 {
            x - 32
        } else {
            x
        };
        let uy = if 97 <= y && y <= 122 {
            y - 32
        } else {
            y
        };
        if ux != uy {
            proof {
                assert(upper_bytes(a@)[i as int] != upper_bytes(b@)[i as int]);
            }
            return false;
        }
        i = i + 1;
    }
    proof {
        assert(upper_bytes(a@) =~= upper_bytes(b@));
    }
    true
}

} // verus!
