use vstd::prelude::*;
use crate::error::{ErrView, RiverError};

verus! {

/// What SHA-256 digests the given bytes to: a function of the input bytes
/// alone, the same in every process and on every machine. No statement
/// here says which bytes those are; the registry tests compare through it.
pub uninterp spec fn sha256_of(data: Seq<u8>) -> Seq<u8>;

/// Relies on sha2's Sha256 (through the Digest trait): the digest depends
/// on the input bytes alone and is 32 bytes long.
#[verifier::external_body]
fn sha256_digest(data: &[u8]) -> (r: Vec<u8>)
    ensures
        r@ == sha256_of(data@),
        r@.len() == 32,
{
    <sha2::Sha256 as sha2::Digest>::digest(data).to_vec()
}

/// The lowercase hexadecimal digit for a value below sixteen.
pub open spec fn hex_digit(n: int) -> char {
    if n == 0 {
        '0'
    } else if n == 1 {
        '1'
    } else if n == 2 {
        '2'
    } else if n == 3 {
        '3'
    } else if n == 4 {
        '4'
    } else if n == 5 {
        '5'
    } else if n == 6 {
        '6'
    } else if n == 7 {
        '7'
    } else if n == 8 {
        '8'
    } else if n == 9 {
        '9'
    } else if n == 10 {
        'a'
    } else if n == 11 {
        'b'
    } else if n == 12 {
        'c'
    } else if n == 13 {
        'd'
    } else if n == 14 {
        'e'
    } else {
        'f'
    }
}

/// Lowercase hexadecimal form of a byte sequence: two digits per byte,
/// high nibble first.
pub open spec fn hex_of(bytes: Seq<u8>) -> Seq<char>
    decreases bytes.len(),
{
    if bytes.len() == 0 {
        Seq::empty()
    } else {
        hex_of(bytes.drop_last()) + seq![
            hex_digit(bytes.last() as int / 16),
            hex_digit(bytes.last() as int % 16),
        ]
    }
}

fn hex_digit_char(n: u8) -> (c: char)
    requires
        n < 16,
    ensures
        c == hex_digit(n as int),
{
    if n == 0 {
        '0'
    } else if n == 1 {
        '1'
    } else if n == 2 {
        '2'
    } else if n == 3 {
        '3'
    } else if n == 4 {
        '4'
    } else if n == 5 {
        '5'
    } else if n == 6 {
        '6'
    } else if n == 7 {
        '7'
    } else if n == 8 {
        '8'
    } else if n == 9 {
        '9'
    } else if n == 10 {
        'a'
    } else if n == 11 {
        'b'
    } else if n == 12 {
        'c'
    } else if n == 13 {
        'd'
    } else if n == 14 {
        'e'
    } else {
        'f'
    }
}

/// The lowercase hexadecimal text of the given bytes.
pub fn to_hex(bytes: &Vec<u8>) -> (r: String)
    ensures
        r@ == hex_of(bytes@),
{
    let mut s = String::new();
    let mut i: usize = 0;
    let n = bytes.len();
    while i < n
        invariant
            i <= n,
            n == bytes@.len(),
            s@ == hex_of(bytes@.take(i as int)),
        decreases n - i,
    {
        let b = bytes[i];
        crate::strutil::push_char(&mut s, hex_digit_char(b / 16));
        crate::strutil::push_char(&mut s, hex_digit_char(b % 16));
        proof {
            let t = bytes@.take(i as int + 1);
            assert(t.drop_last() =~= bytes@.take(i as int));
            assert(t.last() == bytes@[i as int]);
            assert(s@ =~= hex_of(t));
        }
        i = i + 1;
    }
    proof {
        assert(bytes@.take(n as int) =~= bytes@);
    }
    s
}

/// The SHA-256 checksum of the given bytes, as lowercase hexadecimal text.
pub fn calculate_checksum(data: &[u8]) -> (r: String)
    ensures
        r@ == hex_of(sha256_of(data@)),
{
    let digest = sha256_digest(data);
    to_hex(&digest)
}

/// Whether the given bytes digest to the expected hexadecimal checksum.
pub fn verify_checksum(data: &[u8], expected: &str) -> (r: bool)
    ensures
        r == (expected@ == hex_of(sha256_of(data@))),
{
    let computed = calculate_checksum(data);
    crate::manifest::str_eq_string(expected, &computed)
}

/// The integrity decision for a downloaded artifact. When the server
/// declared a checksum, the computed digest must match it character for
/// character, or the download is rejected with both values; an undeclared
/// checksum means nothing to verify. The caller deletes the artifact on
/// rejection, so no partially-verified package is ever installed.
pub fn verify_download(data: &[u8], expected: &Option<String>) -> (r: Result<String, RiverError>)
    ensures
        expected is None ==> (r matches Ok(h) && h@ == hex_of(sha256_of(data@))),
        expected matches Some(e) ==> (if e@ == hex_of(sha256_of(data@)) {
            r matches Ok(h) && h@ == hex_of(sha256_of(data@))
        } else {
            r matches Err(err) && err@ == (ErrView::ChecksumMismatch {
                expected: e@,
                computed: hex_of(sha256_of(data@)),
            })
        }),
{
    let computed = calculate_checksum(data);
    match expected {
        None => Ok(computed),
        Some(e) => {
            if crate::manifest::string_eq(e, &computed) {
                Ok(computed)
            } else {
                Err(RiverError::ChecksumMismatch { expected: e.clone(), computed })
            }
        },
    }
}

} // verus!
