//! SHA-256 digests as lower-case hex text.
use vstd::prelude::*;
use vstd::utf8::encode_utf8;
use crate::text::{chars_of, lower, lower_vec, starts_with_vec, string_of, sub_vec, trim, trim_vec, starts_with};

verus! {

/// The SHA-256 digest of a byte sequence.
pub uninterp spec fn sha256_of(data: Seq<u8>) -> Seq<u8>;

/// Relies on `sha2::Sha256::digest`: the 32-byte SHA-256 digest of the data.
#[verifier::external_body]
fn sha256_digest(data: &[u8]) -> (r: Vec<u8>)
    ensures
        r@ == sha256_of(data@),
        r@.len() == 32,
{
    <sha2::Sha256 as sha2::Digest>::digest(data).to_vec()
}

/// Lower-case hex digit of a value below 16.
pub open spec fn hex_digit(n: u8) -> char {
    if n < 10 {
        (('0' as u8) + n) as char
    } else {
        (('a' as u8) + n - 10) as char
    }
}

/// Two lower-case hex digits per byte, high nibble first.
pub open spec fn hex_of(b: Seq<u8>) -> Seq<char>
    decreases b.len(),
{
    if b.len() == 0 {
        seq![]
    } else {
        hex_of(b.drop_last()).push(hex_digit(b.last() / 16)).push(hex_digit(b.last() % 16))
    }
}

fn hex_digit_exec(n: u8) -> (c: char)
    requires
        n < 16,
    ensures
        c == hex_digit(n),
{
    if n < 10 {
        (48u8 + n) as char
    } else {
        (97u8 + n - 10) as char
    }
}

/// Lower-case hex encoding of bytes.
pub fn hex_encode(b: &[u8]) -> (r: String)
    ensures
        r@ == hex_of(b@),
        r@.len() == 2 * b@.len(),
{
    let mut out: Vec<char> = Vec::new();
    let mut i: usize = 0;
    while i < b.len()
        invariant
            i <= b@.len(),
            out@ == hex_of(b@.subrange(0, i as int)),
            out@.len() == 2 * i,
        decreases b@.len() - i,
    {
        let x = b[i];
        out.push(hex_digit_exec(x / 16));
        out.push(hex_digit_exec(x % 16));
        assert(b@.subrange(0, i + 1).drop_last() =~= b@.subrange(0, i as int));
        i = i + 1;
    }
    assert(b@.subrange(0, b@.len() as int) =~= b@);
    string_of(&out)
}

/// Lower-case hex SHA-256 digest of the UTF-8 bytes of a string.
pub open spec fn sha256_hex_of_text(s: Seq<char>) -> Seq<char> {
    hex_of(sha256_of(encode_utf8(s)))
}

/// Lower-case hex SHA-256 digest of a string's UTF-8 bytes.
pub fn sha256_hex(s: &str) -> (r: String)
    ensures
        r@ == sha256_hex_of_text(s@),
        r@.len() == 64,
{
    let d = sha256_digest(s.as_bytes());
    hex_encode(d.as_slice())
}

/// Lower-case hex SHA-256 digest of bytes.
pub fn sha256_hex_bytes(data: &[u8]) -> (r: String)
    ensures
        r@ == hex_of(sha256_of(data@)),
        r@.len() == 64,
{
    let d = sha256_digest(data);
    hex_encode(d.as_slice())
}

pub open spec fn is_lower_hex(c: char) -> bool {
    ('0' <= c && c <= '9') || ('a' <= c && c <= 'f')
}

pub open spec fn all_hex(h: Seq<char>) -> bool {
    forall|i: int| 0 <= i < h.len() ==> is_lower_hex(#[trigger] h[i])
}

/// A forge's digest text with an optional `sha256:`/`SHA256:` prefix removed,
/// trimmed and lower-cased; it counts only as exactly 64 hex digits.
pub open spec fn parsed_digest(raw: Seq<char>) -> Option<Seq<char>> {
    let d = trim(raw);
    let body = if starts_with(d, "sha256:"@) {
        d.subrange(7, d.len() as int)
    } else if starts_with(d, "SHA256:"@) {
        d.subrange(7, d.len() as int)
    } else {
        d
    };
    let h = lower(trim(body));
    if d.len() == 0 {
        None
    } else if h.len() == 64 && all_hex(h) {
        Some(h)
    } else {
        None
    }
}

/// Reads an asset digest as a forge reports it (`sha256:<hex>`).
pub fn parse_sha256_digest(raw: Option<&str>) -> (r: Option<String>)
    ensures
        match raw {
            None => r is None,
            Some(t) => match parsed_digest(t@) {
                Some(h) => r matches Some(x) && x@ == h,
                None => r is None,
            },
        },
{
    let t = match raw {
        Some(t) => t,
        None => {
            return None;
        },
    };
    let d = trim_vec(&chars_of(t));
    if d.len() == 0 {
        return None;
    }
    proof {
        reveal_strlit("sha256:");
        reveal_strlit("SHA256:");
    }
    let body = if starts_with_vec(&d, &chars_of("sha256:")) || starts_with_vec(&d, &chars_of("SHA256:")) {
        sub_vec(&d, 7, d.len())
    } else {
        sub_vec(&d, 0, d.len())
    };
    assert(d@.subrange(0, d.len() as int) =~= d@);
    let h = lower_vec(&trim_vec(&body));
    if h.len() != 64 {
        return None;
    }
    let mut i: usize = 0;
    let ghost sbody = if starts_with(d@, "sha256:"@) {
        d@.subrange(7, d@.len() as int)
    } else if starts_with(d@, "SHA256:"@) {
        d@.subrange(7, d@.len() as int)
    } else {
        d@
    };
    assert(d@ == trim(t@));
    assert(body@ == sbody);
    assert(h@ == lower(trim(sbody)));

    while i < 64
        invariant
            i <= 64,
            h@.len() == 64,
            raw == Some(t),
            parsed_digest(t@) == (if all_hex(h@) {
                Some(h@)
            } else {
                None
            }),
            forall|j: int| 0 <= j < i ==> is_lower_hex(#[trigger] h@[j]),
        decreases 64 - i,
    {
        let c = h[i];
        if !(('0' <= c && c <= '9') || ('a' <= c && c <= 'f')) {
            return None;
        }
        i = i + 1;
    }
    Some(string_of(&h))
}

/// Whether a downloaded file's digest agrees with the expected one: an
/// absent or blank expectation always agrees; otherwise the trimmed,
/// lower-cased expectation must equal the actual lower-case hex digest.
pub open spec fn digest_agrees(expected: Option<Seq<char>>, actual_hex: Seq<char>) -> bool {
    match expected {
        None => true,
        Some(e) => trim(e).len() == 0 || lower(trim(e)) == actual_hex,
    }
}

pub fn verify_asset_digest(expected_sha256: Option<&str>, actual_hex: &str) -> (r: bool)
    ensures
        r == digest_agrees(
            match expected_sha256 {
                Some(e) => Some(e@),
                None => None,
            },
            actual_hex@,
        ),
{
    match expected_sha256 {
        None => true,
        Some(e) => {
            let t = trim_vec(&chars_of(e));
            if t.len() == 0 {
                return true;
            }
            crate::text::seq_eq(&lower_vec(&t), &chars_of(actual_hex))
        },
    }
}

} // verus!
