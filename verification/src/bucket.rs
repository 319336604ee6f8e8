//! Consistent-hash bucketing: the deterministic position of a user in
//! `[0, 1)` used to assign rollout buckets.
//!
//! The position is a fraction `numerator / BUCKET_DIVIDER`: a 160-bit digest
//! is taken over `flag_key + "." + salt + "." + user_key`, rendered as
//! lowercase hexadecimal, and the first fifteen hex digits are read as an
//! unsigned integer. Only the digest itself is computed outside; everything
//! around it is proved.

use vstd::prelude::*;
use vstd::string::StrSliceExecFns;
use vstd::string::StringSliceAdditionalSpecFns;
use vstd::utf8::encode_utf8;

use sha1::Digest;

verus! {

/// The divisor of the bucket fraction: the largest value representable by
/// fifteen hexadecimal digits.
pub const BUCKET_DIVIDER: u64 = 0xFFFFFFFFFFFFFFF;

/// What a SHA-1 digest of the given bytes holds. The digest depends on the
/// input bytes alone.
pub uninterp spec fn sha1_of(data: Seq<u8>) -> Seq<u8>;

/// Relies on sha1's `Sha1::digest`: a SHA-1 digest is a function of the
/// input bytes alone, and is 160 bits — twenty bytes — long.
#[verifier::external_body]
fn sha1_digest(data: &[u8]) -> (r: Vec<u8>)
    ensures
        r@ == sha1_of(data@),
        r@.len() == 20,
{
    sha1::Sha1::digest(data).to_vec()
}

/// The sixteen lowercase hexadecimal digits, in value order.
pub open spec fn hex_digits() -> Seq<char> {
    seq!['0', '1', '2', '3', '4', '5', '6', '7', '8', '9', 'a', 'b', 'c', 'd', 'e', 'f']
}

/// The lowercase hexadecimal rendering of a byte sequence: two digits per
/// byte, high nibble first.
pub open spec fn hex_of(data: Seq<u8>) -> Seq<char>
    decreases data.len(),
{
    if data.len() == 0 {
        Seq::<char>::empty()
    } else {
        seq![
            hex_digits()[(data.first() >> 4u8) as int],
            hex_digits()[(data.first() & 0x0fu8) as int],
        ] + hex_of(data.drop_first())
    }
}

/// Relies on hex::encode: the lowercase hexadecimal rendering of the input,
/// two digits per byte, high nibble first.
#[verifier::external_body]
fn hex_encode(data: &[u8]) -> (r: String)
    ensures
        r@ == hex_of(data@),
{
    hex::encode(data)
}

pub proof fn lemma_hex_of_len(data: Seq<u8>)
    ensures
        hex_of(data).len() == 2 * data.len(),
    decreases data.len(),
{
    if data.len() > 0 {
        lemma_hex_of_len(data.drop_first());
    }
}

/// The value of one hexadecimal digit; zero for any other character.
pub open spec fn hex_val(c: char) -> int {
    if c == '0' {
        0
    } else if c == '1' {
        1
    } else if c == '2' {
        2
    } else if c == '3' {
        3
    } else if c == '4' {
        4
    } else if c == '5' {
        5
    } else if c == '6' {
        6
    } else if c == '7' {
        7
    } else if c == '8' {
        8
    } else if c == '9' {
        9
    } else if c == 'a' {
        10
    } else if c == 'b' {
        11
    } else if c == 'c' {
        12
    } else if c == 'd' {
        13
    } else if c == 'e' {
        14
    } else if c == 'f' {
        15
    } else {
        0
    }
}

fn hex_char_val(c: char) -> (r: u8)
    ensures
        r as int == hex_val(c),
{
    match c {
        '0' => 0,
        '1' => 1,
        '2' => 2,
        '3' => 3,
        '4' => 4,
        '5' => 5,
        '6' => 6,
        '7' => 7,
        '8' => 8,
        '9' => 9,
        'a' => 10,
        'b' => 11,
        'c' => 12,
        'd' => 13,
        'e' => 14,
        'f' => 15,
        _ => 0,
    }
}

/// The value of the first `n` characters of `s` read as hexadecimal digits.
pub open spec fn hex_prefix_val(s: Seq<char>, n: int) -> int
    decreases n,
{
    if n <= 0 {
        0
    } else {
        hex_prefix_val(s, n - 1) * 16 + hex_val(s[n - 1])
    }
}

/// Sixteen to the `n`th power.
pub open spec fn pow16(n: int) -> int
    decreases n,
{
    if n <= 0 {
        1
    } else {
        16 * pow16(n - 1)
    }
}

pub proof fn lemma_hex_prefix_val_bound(s: Seq<char>, n: int)
    ensures
        0 <= hex_prefix_val(s, n) < pow16(n),
    decreases n,
{
    if n > 0 {
        lemma_hex_prefix_val_bound(s, n - 1);
    }
}

pub proof fn lemma_pow16_pos(n: int)
    ensures
        pow16(n) >= 1,
    decreases n,
{
    if n > 0 {
        lemma_pow16_pos(n - 1);
    }
}

pub proof fn lemma_pow16_increases(a: int, b: int)
    requires
        a <= b,
    ensures
        pow16(a) <= pow16(b),
    decreases b - a,
{
    if a < b {
        lemma_pow16_increases(a, b - 1);
        lemma_pow16_pos(b - 1);
    }
}

/// The exact byte sequence the bucket digest is taken over:
/// `flag_key + "." + salt + "." + user_key`, each part UTF-8 encoded.
pub open spec fn bucket_input(key: Seq<char>, salt: Seq<char>, user: Seq<char>) -> Seq<u8> {
    encode_utf8(key) + seq![46u8] + encode_utf8(salt) + seq![46u8] + encode_utf8(user)
}

/// The numerator of a user's bucket fraction: the first fifteen hex digits
/// of the digest over the dot-separated key, salt and user key.
pub open spec fn bucket_spec(key: Seq<char>, salt: Seq<char>, user: Seq<char>) -> int {
    hex_prefix_val(hex_of(sha1_of(bucket_input(key, salt, user))), 15)
}

/// Computes the numerator of a user's bucket fraction; the bucket itself is
/// the returned value divided by [`BUCKET_DIVIDER`]. The result depends only
/// on the flag key, the salt and the user key, so the same user always lands
/// in the same bucket of the same flag.
pub fn bucket_value(flag_key: &str, salt: &str, user_key: &str) -> (r: u64)
    ensures
        r as int == bucket_spec(flag_key@, salt@, user_key@),
        r <= BUCKET_DIVIDER,
{
    let mut input = flag_key.as_bytes_vec();
    input.push(46);
    let mut salt_bytes = salt.as_bytes_vec();
    input.append(&mut salt_bytes);
    input.push(46);
    let mut user_bytes = user_key.as_bytes_vec();
    input.append(&mut user_bytes);
    proof {
        assert(input@ =~= bucket_input(flag_key@, salt@, user_key@));
    }
    let digest = sha1_digest(input.as_slice());
    let hex_str = hex_encode(digest.as_slice());
    proof {
        lemma_hex_of_len(digest@);
    }
    let hs = hex_str.as_str();
    let mut val: u64 = 0;
    let mut i: usize = 0;
    while i < 15
        invariant
            i <= 15,
            hs@ == hex_of(sha1_of(bucket_input(flag_key@, salt@, user_key@))),
            hs@.len() == 40,
            val as int == hex_prefix_val(hs@, i as int),
            (val as int) < pow16(i as int),
        decreases 15 - i,
    {
        let c = hs.get_char(i);
        let d = hex_char_val(c);
        proof {
            lemma_pow16_increases(i as int, 14);
            assert(pow16(14) == 0x100000000000000) by {
                reveal_with_fuel(pow16, 15);
            }
            lemma_hex_prefix_val_bound(hs@, i + 1);
        }
        val = val * 16 + (d as u64);
        i += 1;
    }
    proof {
        lemma_hex_prefix_val_bound(hs@, 15);
        assert(pow16(15) == 0x1000000000000000) by {
            reveal_with_fuel(pow16, 16);
        }
    }
    val
}

} // verus!
