//! The candidate-buffer counter.
//!
//! A candidate buffer is a fixed identifier prefix followed by a mutable
//! suffix of bytes drawn from the 36-symbol alphabet `'0'..'9'`, `'A'..'Z'`
//! (digit value = position in that ordered alphabet). The suffix is a
//! little-endian counter: `increment_byte_string` advances it by exactly one
//! logical step, carrying through `'Z' -> '0'` and growing the buffer by one
//! byte when every position carried.

use vstd::prelude::*;

verus! {

/// True for the bytes of the counter alphabet: ASCII `'0'..'9'` and `'A'..'Z'`.
pub open spec fn in_alphabet(b: u8) -> bool {
    (48 <= b <= 57) || (65 <= b <= 90)
}

/// The digit value of an alphabet byte: `'0'..'9'` map to 0..9 and
/// `'A'..'Z'` map to 10..35.
pub open spec fn digit_value(b: u8) -> int {
    if 48 <= b <= 57 {
        b - 48
    } else {
        b - 55
    }
}

/// True when every byte of a suffix is in the counter alphabet.
pub open spec fn suffix_in_alphabet(s: Seq<u8>) -> bool {
    forall|i: int| 0 <= i < s.len() ==> in_alphabet(#[trigger] s[i])
}

/// The numeric value of a suffix read as a little-endian base-36 number:
/// the byte at index 0 is the least significant digit.
pub open spec fn suffix_value(s: Seq<u8>) -> int
    decreases s.len(),
{
    if s.len() == 0 {
        0
    } else {
        digit_value(s[0]) + 36 * suffix_value(s.skip(1))
    }
}

/// The alphabet successor of a byte: `'0'..'8'` and `'A'..'Y'` step to the
/// next symbol, `'9'` steps to `'A'`, and `'Z'` wraps to `'0'` (a carry).
pub open spec fn spec_next(b: u8) -> u8 {
    if b == 57 {
        65
    } else if b == 90 {
        48
    } else {
        (b + 1) as u8
    }
}

/// The suffix after one increment starting at its least significant digit:
/// wrap each leading `'Z'` to `'0'`, step the first non-`'Z'` digit, and
/// append a `'1'` when every digit wrapped.
pub open spec fn spec_increment(s: Seq<u8>) -> Seq<u8>
    decreases s.len(),
{
    if s.len() == 0 {
        seq![49u8]
    } else if s[0] == 90 {
        seq![48u8] + spec_increment(s.skip(1))
    } else {
        seq![spec_next(s[0])] + s.skip(1)
    }
}

/// The alphabet successor of one counter byte.
///
/// A byte outside the alphabet would be an unrecoverable invariant
/// violation (a corrupted candidate buffer), so it is excluded here rather
/// than handled.
pub fn next(ascii_decimal: u8) -> (r: u8)
    requires
        in_alphabet(ascii_decimal),
    ensures
        r == spec_next(ascii_decimal),
        in_alphabet(r),
        r == 48 <==> ascii_decimal == 90,
        digit_value(r) == if ascii_decimal == 90 {
            0
        } else {
            digit_value(ascii_decimal) + 1
        },
{
    if ascii_decimal == 57 {
        65
    } else if ascii_decimal == 90 {
        48
    } else {
        ascii_decimal + 1
    }
}

/// Advance the counter suffix of `s` (the bytes from `start_index` on) by
/// one logical step, in place. Carries propagate from `start_index` upward;
/// when every suffix position carried, the buffer grows by one `'1'` byte.
/// Bytes before `start_index` are never touched.
pub fn increment_byte_string(s: &mut Vec<u8>, start_index: usize)
    requires
        start_index <= old(s)@.len(),
        suffix_in_alphabet(old(s)@.skip(start_index as int)),
        old(s)@.len() < usize::MAX,
    ensures
        final(s)@ == old(s)@.take(start_index as int) + spec_increment(
            old(s)@.skip(start_index as int),
        ),
{
    let ghost orig = s@;
    let ghost start = start_index as int;
    let mut i: usize = start_index;
    while i < s.len()
        invariant
            start_index <= i <= s@.len(),
            start == start_index as int,
            orig == old(s)@,
            s@.len() == orig.len() < usize::MAX,
            start_index <= orig.len(),
            suffix_in_alphabet(orig.skip(start)),
            forall|j: int| 0 <= j < start ==> #[trigger] s@[j] == orig[j],
            forall|j: int| start <= j < i ==> #[trigger] orig[j] == 90,
            forall|j: int| start <= j < i ==> #[trigger] s@[j] == 48,
            forall|j: int| i <= j < s@.len() ==> #[trigger] s@[j] == orig[j],
        decreases s@.len() - i,
    {
        let c = s[i];
        proof {
            assert(orig.skip(start)[i - start] == orig[i as int]);
            assert(in_alphabet(orig[i as int]));
        }
        let n = next(c);
        s.set(i, n);
        if n != 48 {
            proof {
                let suf = orig.skip(start);
                let k = (i - start) as nat;
                assert forall|j: int| 0 <= j < k implies suf[j] == 90 by {
                    assert(suf[j] == orig[j + start]);
                }
                lemma_increment_skips_wraps(suf, k);
                assert(suf.skip(k as int) =~= orig.skip(i as int));
                assert(orig[i as int] != 90);
                assert(spec_increment(orig.skip(i as int)) == seq![spec_next(orig[i as int])]
                    + orig.skip(i as int).skip(1));
                assert(orig.skip(i as int).skip(1) =~= orig.skip(i + 1));
                assert(s@ =~= orig.take(start) + spec_increment(suf));
            }
            return;
        }
        i = i + 1;
    }
    // Every position carried: the counter grows by one digit.
    s.push(49);
    proof {
        let suf = orig.skip(start);
        let k = (orig.len() - start) as nat;
        assert forall|j: int| 0 <= j < k implies suf[j] == 90 by {
            assert(suf[j] == orig[j + start]);
        }
        lemma_increment_skips_wraps(suf, k);
        assert(suf.skip(k as int) =~= Seq::<u8>::empty());
        assert(spec_increment(Seq::<u8>::empty()) == seq![49u8]);
        assert(s@ =~= orig.take(start) + spec_increment(suf));
    }
}

/// When the first `k` digits of `s` are all `'Z'`, one increment wraps each
/// of them to `'0'` and then increments the rest of the suffix.
proof fn lemma_increment_skips_wraps(s: Seq<u8>, k: nat)
    requires
        k <= s.len(),
        forall|j: int| 0 <= j < k ==> s[j] == 90,
    ensures
        spec_increment(s) == Seq::new(k, |j: int| 48u8) + spec_increment(s.skip(k as int)),
    decreases k,
{
    if k == 0 {
        assert(s.skip(0) =~= s);
        assert(Seq::new(0, |j: int| 48u8) + spec_increment(s) =~= spec_increment(s));
    } else {
        lemma_increment_skips_wraps(s.skip(1), (k - 1) as nat);
        assert(s.skip(1).skip(k - 1) =~= s.skip(k as int));
        assert(spec_increment(s) == seq![48u8] + spec_increment(s.skip(1)));
        assert(spec_increment(s) =~= Seq::new(k, |j: int| 48u8) + spec_increment(s.skip(k as int)));
    }
}

/// One increment raises the little-endian base-36 value of the suffix by
/// exactly one, and keeps every byte in the alphabet.
pub proof fn lemma_increment_value(s: Seq<u8>)
    requires
        suffix_in_alphabet(s),
    ensures
        suffix_value(spec_increment(s)) == suffix_value(s) + 1,
        suffix_in_alphabet(spec_increment(s)),
    decreases s.len(),
{
    if s.len() == 0 {
        let t = seq![49u8];
        assert(t.skip(1) =~= Seq::<u8>::empty());
        assert(suffix_value(t.skip(1)) == 0);
        assert(suffix_value(t) == digit_value(49u8) + 36 * suffix_value(t.skip(1)));
    } else if s[0] == 90 {
        assert(suffix_in_alphabet(s.skip(1)));
        lemma_increment_value(s.skip(1));
        let t = seq![48u8] + spec_increment(s.skip(1));
        assert(t.skip(1) =~= spec_increment(s.skip(1)));
        assert(suffix_value(t) == 0 + 36 * suffix_value(spec_increment(s.skip(1))));
    } else {
        let t = seq![spec_next(s[0])] + s.skip(1);
        assert(t.skip(1) =~= s.skip(1));
        assert(suffix_value(t) == digit_value(spec_next(s[0])) + 36 * suffix_value(s.skip(1)));
    }
}

/// The suffix state after `k` increments.
pub open spec fn iter_increment(s: Seq<u8>, k: nat) -> Seq<u8>
    decreases k,
{
    if k == 0 {
        s
    } else {
        spec_increment(iter_increment(s, (k - 1) as nat))
    }
}

/// After `k` increments the suffix value has risen by exactly `k`, and the
/// state is still drawn from the alphabet.
pub proof fn lemma_iter_increment_value(s: Seq<u8>, k: nat)
    requires
        suffix_in_alphabet(s),
    ensures
        suffix_value(iter_increment(s, k)) == suffix_value(s) + k,
        suffix_in_alphabet(iter_increment(s, k)),
    decreases k,
{
    if k > 0 {
        lemma_iter_increment_value(s, (k - 1) as nat);
        lemma_increment_value(iter_increment(s, (k - 1) as nat));
    }
}

/// Law: iterated increments from a fixed start never repeat a buffer state.
/// Any two distinct step counts give distinct suffixes, because each step
/// advances the suffix value by exactly one.
pub proof fn lemma_iter_increment_distinct(s: Seq<u8>, m: nat, n: nat)
    requires
        suffix_in_alphabet(s),
        m != n,
    ensures
        iter_increment(s, m) != iter_increment(s, n),
{
    lemma_iter_increment_value(s, m);
    lemma_iter_increment_value(s, n);
}

/// The lowercase base-36 digit byte for a value below 36: `0..9` map to
/// `'0'..'9'` and `10..35` map to `'a'..'z'`.
pub open spec fn base36_digit_lower(v: int) -> u8 {
    if v < 10 {
        (v + 48) as u8
    } else {
        (v + 87) as u8
    }
}

/// The base-36 rendering of a number, lowercase, most significant digit
/// first; zero renders as `"0"`.
pub open spec fn spec_base36_lower(n: nat) -> Seq<u8>
    decreases n,
{
    if n < 36 {
        seq![base36_digit_lower(n as int)]
    } else {
        spec_base36_lower(n / 36) + seq![base36_digit_lower((n % 36) as int)]
    }
}

/// An ASCII lowercase letter raised to its uppercase form; other bytes are
/// untouched.
pub open spec fn ascii_upper(b: u8) -> u8 {
    if 97 <= b <= 122 {
        (b - 32) as u8
    } else {
        b
    }
}

/// The uppercase base-36 rendering of a number, the form the candidate
/// buffer is seeded with.
pub open spec fn spec_base36_upper(n: nat) -> Seq<u8> {
    spec_base36_lower(n).map_values(|b: u8| ascii_upper(b))
}

/// Every byte of the lowercase base-36 rendering is a digit or a lowercase
/// letter, and the rendering is never empty.
pub proof fn lemma_base36_lower_digits(n: nat)
    ensures
        spec_base36_lower(n).len() >= 1,
        forall|i: int|
            0 <= i < spec_base36_lower(n).len() ==> {
                let b = #[trigger] spec_base36_lower(n)[i];
                (48 <= b <= 57) || (97 <= b <= 122)
            },
    decreases n,
{
    if n >= 36 {
        lemma_base36_lower_digits(n / 36);
    }
}

/// The uppercase base-36 rendering is drawn from the counter alphabet and
/// is never empty.
pub proof fn lemma_base36_upper_in_alphabet(n: nat)
    ensures
        spec_base36_upper(n).len() >= 1,
        suffix_in_alphabet(spec_base36_upper(n)),
{
    lemma_base36_lower_digits(n);
    assert forall|i: int| 0 <= i < spec_base36_upper(n).len() implies in_alphabet(
        #[trigger] spec_base36_upper(n)[i],
    ) by {
        assert(spec_base36_upper(n)[i] == ascii_upper(spec_base36_lower(n)[i]));
    }
}

/// Relies on radix_fmt's `radix` with base 36: it renders the digits of the
/// number most significant first, `0..9` as `'0'..'9'` and `10..35` as
/// `'a'..'z'`, with a single `'0'` for zero.
#[verifier::external_body]
fn base36_lower(n: u64) -> (r: Vec<u8>)
    ensures
        r@ == spec_base36_lower(n as nat),
{
    radix_fmt::radix(n, 36).to_string().into_bytes()
}

/// The uppercase base-36 rendering of a number, as the candidate buffer
/// carries it: digits `'0'..'9'` then letters `'A'..'Z'`, most significant
/// first.
pub fn base36_upper(n: u64) -> (r: Vec<u8>)
    ensures
        r@ == spec_base36_upper(n as nat),
        r@.len() >= 1,
        suffix_in_alphabet(r@),
{
    let mut v = base36_lower(n);
    let ghost orig = v@;
    proof {
        lemma_base36_lower_digits(n as nat);
        lemma_base36_upper_in_alphabet(n as nat);
    }
    let mut i: usize = 0;
    while i < v.len()
        invariant
            0 <= i <= v@.len(),
            v@.len() == orig.len(),
            orig == spec_base36_lower(n as nat),
            forall|j: int| 0 <= j < i ==> #[trigger] v@[j] == ascii_upper(orig[j]),
            forall|j: int| i <= j < v@.len() ==> #[trigger] v@[j] == orig[j],
        decreases v@.len() - i,
    {
        let b = v[i];
        proof {
            lemma_base36_lower_digits(n as nat);
        }
        if b >= 97 {
            v.set(i, b - 32);
        }
        i = i + 1;
    }
    proof {
        assert(v@ =~= spec_base36_upper(n as nat));
    }
    v
}

/// An all-`'Z'` suffix grows by one byte on increment; any other suffix
/// keeps its length.
pub proof fn lemma_increment_len(s: Seq<u8>)
    ensures
        (forall|j: int| 0 <= j < s.len() ==> s[j] == 90) ==> spec_increment(s).len() == s.len()
            + 1,
        (exists|j: int| 0 <= j < s.len() && s[j] != 90) ==> spec_increment(s).len() == s.len(),
    decreases s.len(),
{
    if s.len() > 0 {
        lemma_increment_len(s.skip(1));
        if s[0] == 90 {
            if exists|j: int| 0 <= j < s.len() && s[j] != 90 {
                let j = choose|j: int| 0 <= j < s.len() && s[j] != 90;
                assert(s.skip(1)[j - 1] != 90);
            }
        }
    }
}

} // verus!
