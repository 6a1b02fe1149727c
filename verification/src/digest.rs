//! Digest evaluation: SHA-256 hashing of candidate buffers, the
//! leading-zero-bit difficulty measure, and hex rendering of digests.

use vstd::prelude::*;

verus! {

/// The name of what SHA-256 returns for a byte sequence. The digest is a
/// function of the input bytes alone; its definition lives outside this
/// crate.
pub uninterp spec fn sha256_of(bytes: Seq<u8>) -> Seq<u8>;

/// Relies on sha2's `Sha256` (through the `Digest` trait): the digest
/// depends on the input bytes alone and is always 32 bytes long.
#[verifier::external_body]
pub(crate) fn sha256_digest(input: &[u8]) -> (r: Vec<u8>)
    ensures
        r@ == sha256_of(input@),
        r@.len() == 32,
{
    <sha2::Sha256 as sha2::Digest>::digest(input).to_vec()
}

/// The number of leading zero bits within one byte, scanned from the most
/// significant bit down: the first set bit ends the count.
pub open spec fn byte_leading_zeros(b: u8) -> int {
    if b >= 128 {
        0
    } else if b >= 64 {
        1
    } else if b >= 32 {
        2
    } else if b >= 16 {
        3
    } else if b >= 8 {
        4
    } else if b >= 4 {
        5
    } else if b >= 2 {
        6
    } else if b >= 1 {
        7
    } else {
        8
    }
}

/// The number of leading zero bits of a digest: a `0x00` byte contributes 8
/// and the scan continues; the first nonzero byte contributes its own
/// leading zeros and ends the scan.
pub open spec fn spec_leading_zero_bits(s: Seq<u8>) -> int
    decreases s.len(),
{
    if s.len() == 0 {
        0
    } else if s[0] == 0 {
        8 + spec_leading_zero_bits(s.skip(1))
    } else {
        byte_leading_zeros(s[0])
    }
}

/// Law: the byte ladder really counts bits. Shifting away everything
/// below the first set bit leaves exactly `1`, so the top
/// `byte_leading_zeros(b)` bits of `b` are zero and the next bit is one;
/// only the all-zero byte counts all 8.
pub proof fn lemma_byte_leading_zeros_scan(b: u8)
    ensures
        byte_leading_zeros(b) == 8 <==> b == 0,
        byte_leading_zeros(b) < 8 ==> b >> ((7 - byte_leading_zeros(b)) as u8) == 1,
{
    if b >= 128 {
        assert(b >> 7u8 == 1) by (bit_vector)
            requires
                b >= 128,
        ;
    } else if b >= 64 {
        assert(b >> 6u8 == 1) by (bit_vector)
            requires
                64 <= b < 128,
        ;
    } else if b >= 32 {
        assert(b >> 5u8 == 1) by (bit_vector)
            requires
                32 <= b < 64,
        ;
    } else if b >= 16 {
        assert(b >> 4u8 == 1) by (bit_vector)
            requires
                16 <= b < 32,
        ;
    } else if b >= 8 {
        assert(b >> 3u8 == 1) by (bit_vector)
            requires
                8 <= b < 16,
        ;
    } else if b >= 4 {
        assert(b >> 2u8 == 1) by (bit_vector)
            requires
                4 <= b < 8,
        ;
    } else if b >= 2 {
        assert(b >> 1u8 == 1) by (bit_vector)
            requires
                2 <= b < 4,
        ;
    } else if b >= 1 {
        assert(b >> 0u8 == 1) by (bit_vector)
            requires
                b == 1,
        ;
    }
}

/// The leading-zero-bit count of any byte sequence lies between 0 and eight
/// bits per byte.
pub proof fn lemma_leading_zero_bits_bound(s: Seq<u8>)
    ensures
        0 <= spec_leading_zero_bits(s) <= 8 * s.len(),
    decreases s.len(),
{
    if s.len() > 0 && s[0] == 0 {
        lemma_leading_zero_bits_bound(s.skip(1));
    }
}

/// Law: the leading-zero-bit count of a 32-byte digest lies in [0, 256].
pub proof fn lemma_digest_count_in_range(digest: Seq<u8>)
    requires
        digest.len() == 32,
    ensures
        0 <= spec_leading_zero_bits(digest) <= 256,
{
    lemma_leading_zero_bits_bound(digest);
}

/// When the first `k` bytes of `s` are zero, the count is `8 * k` plus the
/// count of the rest.
proof fn lemma_leading_zero_bits_skip(s: Seq<u8>, k: nat)
    requires
        k <= s.len(),
        forall|j: int| 0 <= j < k ==> s[j] == 0,
    ensures
        spec_leading_zero_bits(s) == 8 * k + spec_leading_zero_bits(s.skip(k as int)),
    decreases k,
{
    if k == 0 {
        assert(s.skip(0) =~= s);
    } else {
        lemma_leading_zero_bits_skip(s.skip(1), (k - 1) as nat);
        assert(s.skip(1).skip(k - 1) =~= s.skip(k as int));
    }
}

/// Count the leading zero bits of a digest by the byte-then-bit scan.
pub fn count_leading_zero_bits(buffer: &[u8]) -> (r: u32)
    requires
        8 * buffer@.len() <= u32::MAX,
    ensures
        r == spec_leading_zero_bits(buffer@),
{
    let mut leading_zero_bits: u32 = 0;
    let mut i: usize = 0;
    while i < buffer.len()
        invariant
            0 <= i <= buffer@.len(),
            8 * buffer@.len() <= u32::MAX,
            leading_zero_bits == 8 * i,
            forall|j: int| 0 <= j < i ==> buffer@[j] == 0,
        decreases buffer@.len() - i,
    {
        let byte = buffer[i];
        if byte == 0 {
            leading_zero_bits = leading_zero_bits + 8;
            i = i + 1;
        } else {
            let within_byte: u32 = if byte >= 128 {
                0
            } else if byte >= 64 {
                1
            } else if byte >= 32 {
                2
            } else if byte >= 16 {
                3
            } else if byte >= 8 {
                4
            } else if byte >= 4 {
                5
            } else if byte >= 2 {
                6
            } else {
                7
            };
            proof {
                lemma_leading_zero_bits_skip(buffer@, i as nat);
                assert(buffer@.skip(i as int)[0] == buffer@[i as int]);
            }
            return leading_zero_bits + within_byte;
        }
    }
    proof {
        lemma_leading_zero_bits_skip(buffer@, buffer@.len());
        assert(buffer@.skip(buffer@.len() as int) =~= Seq::<u8>::empty());
    }
    leading_zero_bits
}

/// The characters a byte sequence spells when read as ASCII.
pub open spec fn bytes_as_chars(s: Seq<u8>) -> Seq<char> {
    Seq::new(s.len(), |i: int| s[i] as char)
}

/// Relies on std's `String::from_utf8`: bytes below 128 are valid UTF-8 and
/// decode to exactly those characters, one character per byte.
#[verifier::external_body]
pub(crate) fn ascii_to_string(v: Vec<u8>) -> (r: String)
    requires
        forall|i: int| 0 <= i < v@.len() ==> v@[i] < 128,
    ensures
        r@ == bytes_as_chars(v@),
{
    String::from_utf8(v).unwrap_or_default()
}

/// The lowercase hex digit (as an ASCII byte) for a value below 16.
pub open spec fn hex_digit_lower(v: u8) -> u8 {
    if v < 10 {
        (v + 48) as u8
    } else {
        (v + 87) as u8
    }
}

/// The uppercase hex digit (as an ASCII byte) for a value below 16.
pub open spec fn hex_digit_upper(v: u8) -> u8 {
    if v < 10 {
        (v + 48) as u8
    } else {
        (v + 55) as u8
    }
}

/// The lowercase hex rendering of a byte sequence: two digits per byte,
/// high nibble first.
pub open spec fn hex_lower_bytes(s: Seq<u8>) -> Seq<u8>
    decreases s.len(),
{
    if s.len() == 0 {
        Seq::empty()
    } else {
        seq![hex_digit_lower(s[0] / 16), hex_digit_lower(s[0] % 16)] + hex_lower_bytes(s.skip(1))
    }
}

/// The uppercase hex rendering of a byte sequence: two digits per byte,
/// high nibble first.
pub open spec fn hex_upper_bytes(s: Seq<u8>) -> Seq<u8>
    decreases s.len(),
{
    if s.len() == 0 {
        Seq::empty()
    } else {
        seq![hex_digit_upper(s[0] / 16), hex_digit_upper(s[0] % 16)] + hex_upper_bytes(s.skip(1))
    }
}

/// Every byte of a hex rendering is printable ASCII.
pub proof fn lemma_hex_lower_bytes_ascii(s: Seq<u8>)
    ensures
        hex_lower_bytes(s).len() == 2 * s.len(),
        forall|i: int|
            0 <= i < hex_lower_bytes(s).len() ==> #[trigger] hex_lower_bytes(s)[i] < 128,
    decreases s.len(),
{
    if s.len() > 0 {
        lemma_hex_lower_bytes_ascii(s.skip(1));
    }
}

/// As `lemma_hex_lower_bytes_ascii`, for the uppercase rendering.
pub proof fn lemma_hex_upper_bytes_ascii(s: Seq<u8>)
    ensures
        hex_upper_bytes(s).len() == 2 * s.len(),
        forall|i: int|
            0 <= i < hex_upper_bytes(s).len() ==> #[trigger] hex_upper_bytes(s)[i] < 128,
    decreases s.len(),
{
    if s.len() > 0 {
        lemma_hex_upper_bytes_ascii(s.skip(1));
    }
}

/// The uppercase hex digit for one nibble, as a character.
pub fn to_char(val: u8) -> (c: char)
    requires
        val < 16,
    ensures
        c == hex_digit_upper(val) as char,
{
    match val {
        0 => '0',
        1 => '1',
        2 => '2',
        3 => '3',
        4 => '4',
        5 => '5',
        6 => '6',
        7 => '7',
        8 => '8',
        9 => '9',
        10 => 'A',
        11 => 'B',
        12 => 'C',
        13 => 'D',
        14 => 'E',
        _ => 'F',
    }
}

/// Render a byte sequence as lowercase hex bytes, two digits per byte.
pub fn hex_lower_of(bytes: &[u8]) -> (r: Vec<u8>)
    requires
        2 * bytes@.len() <= usize::MAX,
    ensures
        r@ == hex_lower_bytes(bytes@),
{
    let mut out: Vec<u8> = Vec::new();
    let mut i: usize = 0;
    while i < bytes.len()
        invariant
            0 <= i <= bytes@.len(),
            2 * bytes@.len() <= usize::MAX,
            out@ == hex_lower_bytes(bytes@.take(i as int)),
            out@.len() == 2 * i,
        decreases bytes@.len() - i,
    {
        let b = bytes[i];
        let hi = b / 16;
        let lo = b % 16;
        let hi_digit: u8 = if hi < 10 {
            hi + 48
        } else {
            hi + 87
        };
        let lo_digit: u8 = if lo < 10 {
            lo + 48
        } else {
            lo + 87
        };
        out.push(hi_digit);
        out.push(lo_digit);
        proof {
            lemma_hex_take_step_lower(bytes@, i as int);
        }
        i = i + 1;
    }
    proof {
        assert(bytes@.take(bytes@.len() as int) =~= bytes@);
    }
    out
}

/// Extending the prefix by one byte appends that byte's two lowercase hex
/// digits.
proof fn lemma_hex_take_step_lower(s: Seq<u8>, i: int)
    requires
        0 <= i < s.len(),
    ensures
        hex_lower_bytes(s.take(i + 1)) == hex_lower_bytes(s.take(i)) + seq![
            hex_digit_lower(s[i] / 16),
            hex_digit_lower(s[i] % 16),
        ],
    decreases i,
{
    if i == 0 {
        assert(s.take(1).skip(1) =~= Seq::<u8>::empty());
        assert(s.take(0) =~= Seq::<u8>::empty());
        assert(hex_lower_bytes(s.take(1)) =~= hex_lower_bytes(s.take(0)) + seq![
            hex_digit_lower(s[0] / 16),
            hex_digit_lower(s[0] % 16),
        ]);
    } else {
        lemma_hex_take_step_lower(s.skip(1), i - 1);
        assert(s.take(i + 1).skip(1) =~= s.skip(1).take(i));
        assert(s.take(i).skip(1) =~= s.skip(1).take(i - 1));
        assert(s.take(i + 1)[0] == s[0] && s.take(i)[0] == s[0]);
        assert(s.skip(1)[i - 1] == s[i]);
        assert(hex_lower_bytes(s.take(i + 1)) =~= hex_lower_bytes(s.take(i)) + seq![
            hex_digit_lower(s[i] / 16),
            hex_digit_lower(s[i] % 16),
        ]);
    }
}

/// Render a byte sequence as uppercase hex bytes, two digits per byte.
pub fn hex_upper_of(bytes: &[u8]) -> (r: Vec<u8>)
    requires
        2 * bytes@.len() <= usize::MAX,
    ensures
        r@ == hex_upper_bytes(bytes@),
{
    let mut out: Vec<u8> = Vec::new();
    let mut i: usize = 0;
    while i < bytes.len()
        invariant
            0 <= i <= bytes@.len(),
            2 * bytes@.len() <= usize::MAX,
            out@ == hex_upper_bytes(bytes@.take(i as int)),
            out@.len() == 2 * i,
        decreases bytes@.len() - i,
    {
        let b = bytes[i];
        let hi = b / 16;
        let lo = b % 16;
        let hi_digit: u8 = if hi < 10 {
            hi + 48
        } else {
            hi + 55
        };
        let lo_digit: u8 = if lo < 10 {
            lo + 48
        } else {
            lo + 55
        };
        out.push(hi_digit);
        out.push(lo_digit);
        proof {
            lemma_hex_take_step_upper(bytes@, i as int);
        }
        i = i + 1;
    }
    proof {
        assert(bytes@.take(bytes@.len() as int) =~= bytes@);
    }
    out
}

/// Extending the prefix by one byte appends that byte's two uppercase hex
/// digits.
proof fn lemma_hex_take_step_upper(s: Seq<u8>, i: int)
    requires
        0 <= i < s.len(),
    ensures
        hex_upper_bytes(s.take(i + 1)) == hex_upper_bytes(s.take(i)) + seq![
            hex_digit_upper(s[i] / 16),
            hex_digit_upper(s[i] % 16),
        ],
    decreases i,
{
    if i == 0 {
        assert(s.take(1).skip(1) =~= Seq::<u8>::empty());
        assert(s.take(0) =~= Seq::<u8>::empty());
        assert(hex_upper_bytes(s.take(1)) =~= hex_upper_bytes(s.take(0)) + seq![
            hex_digit_upper(s[0] / 16),
            hex_digit_upper(s[0] % 16),
        ]);
    } else {
        lemma_hex_take_step_upper(s.skip(1), i - 1);
        assert(s.take(i + 1).skip(1) =~= s.skip(1).take(i));
        assert(s.take(i).skip(1) =~= s.skip(1).take(i - 1));
        assert(s.take(i + 1)[0] == s[0] && s.take(i)[0] == s[0]);
        assert(s.skip(1)[i - 1] == s[i]);
        assert(hex_upper_bytes(s.take(i + 1)) =~= hex_upper_bytes(s.take(i)) + seq![
            hex_digit_upper(s[i] / 16),
            hex_digit_upper(s[i] % 16),
        ]);
    }
}

/// Render a number as the uppercase hex string of its little-endian
/// bytes: 16 characters, two per byte, least significant byte first.
pub fn hex_string(n: u64) -> (r: String)
    ensures
        r@ == bytes_as_chars(hex_upper_bytes(vstd::bytes::spec_u64_to_le_bytes(n))),
{
    let bytes = vstd::bytes::u64_to_le_bytes(n);
    let hex = hex_upper_of(bytes.as_slice());
    proof {
        lemma_hex_upper_bytes_ascii(bytes@);
    }
    ascii_to_string(hex)
}

/// Render a digest as its lowercase hex string, two characters per byte.
pub fn sha245_to_string(sha256_buffer: &[u8]) -> (r: String)
    requires
        2 * sha256_buffer@.len() <= usize::MAX,
    ensures
        r@ == bytes_as_chars(hex_lower_bytes(sha256_buffer@)),
{
    let hex = hex_lower_of(sha256_buffer);
    proof {
        lemma_hex_lower_bytes_ascii(sha256_buffer@);
    }
    ascii_to_string(hex)
}

/// How many leading `'0'` characters a hash string starts with: the
/// difficulty measure in whole hex digits.
pub open spec fn spec_count_nounce(s: Seq<char>) -> int
    decreases s.len(),
{
    if s.len() == 0 {
        0
    } else if s[0] == '0' {
        1 + spec_count_nounce(s.skip(1))
    } else {
        0
    }
}

/// When the first `k` characters are `'0'`, the count is `k` plus the
/// count of the rest.
proof fn lemma_count_nounce_skip(s: Seq<char>, k: nat)
    requires
        k <= s.len(),
        forall|j: int| 0 <= j < k ==> s[j] == '0',
    ensures
        spec_count_nounce(s) == k + spec_count_nounce(s.skip(k as int)),
    decreases k,
{
    if k == 0 {
        assert(s.skip(0) =~= s);
    } else {
        lemma_count_nounce_skip(s.skip(1), (k - 1) as nat);
        assert(s.skip(1).skip(k - 1) =~= s.skip(k as int));
    }
}

/// Count the leading `'0'` characters of a hash string.
pub fn count_nounce(hash: &String) -> (r: usize)
    ensures
        r == spec_count_nounce(hash@),
{
    let s = hash.as_str();
    let len = s.unicode_len();
    let mut length: usize = 0;
    while length < len
        invariant
            0 <= length <= len,
            len == s@.len(),
            s@ == hash@,
            forall|j: int| 0 <= j < length ==> s@[j] == '0',
        decreases len - length,
    {
        let c = s.get_char(length);
        if c != '0' {
            proof {
                lemma_count_nounce_skip(s@, length as nat);
                assert(s@.skip(length as int)[0] == s@[length as int]);
            }
            return length;
        }
        length = length + 1;
    }
    proof {
        lemma_count_nounce_skip(s@, len as nat);
        assert(s@.skip(len as int) =~= Seq::<char>::empty());
    }
    length
}

} // verus!
