//! Parsing of the text the user types into the control window.
//!
//! The channel bitmask is typed in base 2 (for example `101` selects
//! channels 0 and 2). It is read exactly as `u8::from_str_radix(text, 2)`
//! reads it: an optional leading `+`, then one or more binary digits whose
//! value fits in a byte. Leading zeros are allowed.

use vstd::prelude::*;
use vstd::string::StringSliceAdditionalSpecFns;

verus! {

/// The ASCII code of `+`.
pub const PLUS: u8 = 43;

/// The ASCII code of `0`.
pub const ZERO: u8 = 48;

/// The ASCII code of `1`.
pub const ONE: u8 = 49;

/// `b` is a binary digit.
pub open spec fn is_bin_digit(b: u8) -> bool {
    b == ZERO || b == ONE
}

/// Every byte of `s` is a binary digit.
pub open spec fn all_bin_digits(s: Seq<u8>) -> bool {
    forall|i: int| 0 <= i < s.len() ==> #[trigger] is_bin_digit(s[i])
}

/// The value of the binary numeral `s` (most significant digit first).
pub open spec fn bin_value(s: Seq<u8>) -> nat
    decreases s.len(),
{
    if s.len() == 0 {
        0
    } else {
        2 * bin_value(s.drop_last()) + (if s.last() == ONE { 1nat } else { 0nat })
    }
}

/// The digits of a bitmask text: the text without one leading `+`.
pub open spec fn mask_digits(s: Seq<u8>) -> Seq<u8> {
    if s.len() > 0 && s[0] == PLUS {
        s.drop_first()
    } else {
        s
    }
}

/// The bitmask that the text `s` denotes, if it denotes one.
pub open spec fn spec_parse_mask(s: Seq<u8>) -> Option<u8> {
    let d = mask_digits(s);
    if d.len() > 0 && all_bin_digits(d) && bin_value(d) <= 255 {
        Some(bin_value(d) as u8)
    } else {
        None
    }
}

/// Adding binary digits at the end of a numeral never makes it smaller.
pub proof fn lemma_bin_value_prefix_mono(s: Seq<u8>, i: int, j: int)
    requires
        0 <= i <= j <= s.len(),
    ensures
        bin_value(s.take(i)) <= bin_value(s.take(j)),
    decreases j - i,
{
    if i < j {
        lemma_bin_value_prefix_mono(s, i, j - 1);
        assert(s.take(j).drop_last() =~= s.take(j - 1));
    }
}

/// Parses a channel bitmask typed in base 2.
///
/// Returns `Some(v)` exactly when the text is an optional `+` followed by
/// one or more binary digits whose value `v` is at most 255, and `None`
/// otherwise (empty text, a lone `+`, any other character, or a value that
/// does not fit in a byte).
pub fn parse_mask(text: &str) -> (r: Option<u8>)
    ensures
        r == spec_parse_mask(text.spec_bytes()),
{
    let bytes = text.as_bytes();
    let ghost s = bytes@;
    let n = bytes.len();
    let start: usize = if n > 0 && bytes[0] == PLUS { 1 } else { 0 };
    let ghost d = mask_digits(s);
    assert(d =~= s.subrange(start as int, n as int));
    if start == n {
        return None;
    }
    let mut acc: u32 = 0;
    let mut k: usize = start;
    assert(d.take(0) =~= Seq::<u8>::empty());
    while k < n
        invariant
            start <= k <= n,
            n == s.len(),
            bytes@ == s,
            s == text.spec_bytes(),
            d == mask_digits(s),
            d =~= s.subrange(start as int, n as int),
            all_bin_digits(d.take(k - start)),
            acc as nat == bin_value(d.take(k - start)),
            acc <= 255,
        decreases n - k,
    {
        let c = bytes[k];
        let ghost j: int = k - start;
        assert(d[j] == c);
        if c != ZERO && c != ONE {
            assert(!is_bin_digit(d[j]));
            return None;
        }
        let bit: u32 = if c == ONE { 1 } else { 0 };
        assert(d.take(j + 1).drop_last() =~= d.take(j));
        assert(d.take(j + 1).last() == c);
        acc = 2 * acc + bit;
        k = k + 1;
        assert(all_bin_digits(d.take(k - start))) by {
            assert forall|i: int| 0 <= i < d.take(j + 1).len() implies #[trigger] is_bin_digit(
                d.take(j + 1)[i],
            ) by {
                if i < j {
                    assert(d.take(j + 1)[i] == d.take(j)[i]);
                }
            }
        }
        if acc > 255 {
            proof {
                lemma_bin_value_prefix_mono(d, j + 1, d.len() as int);
                assert(d.take(d.len() as int) =~= d);
            }
            return None;
        }
    }
    proof {
        assert(d.take(d.len() as int) =~= d);
    }
    Some(acc as u8)
}

/// Reads a bitmask typed by the user into `upd_u8`.
///
/// When `text` denotes a bitmask (see [`parse_mask`]) it is stored in
/// `upd_u8` and `true` is returned; otherwise `upd_u8` is left as it was and
/// `false` is returned, so that the caller can tell the user the input was
/// invalid.
pub fn input_parse_update_mask(text: &str, upd_u8: &mut u8) -> (ok: bool)
    ensures
        ok == spec_parse_mask(text.spec_bytes()) is Some,
        ok ==> *final(upd_u8) == spec_parse_mask(text.spec_bytes())->0,
        !ok ==> *final(upd_u8) == *old(upd_u8),
{
    match parse_mask(text) {
        Some(value) => {
            *upd_u8 = value;
            true
        },
        None => false,
    }
}

/// `n` copies of the digit `0`.
pub open spec fn zeros(n: nat) -> Seq<u8> {
    Seq::new(n, |i: int| ZERO)
}

/// The `n`-digit base-2 numeral of `v` (zero-padded on the left, cut to the
/// low `n` digits).
pub open spec fn bin_digits(v: nat, n: nat) -> Seq<u8>
    decreases n,
{
    if n == 0 {
        Seq::empty()
    } else {
        bin_digits(v / 2, (n - 1) as nat).push(if v % 2 == 1 { ONE } else { ZERO })
    }
}

/// `2^n`.
pub open spec fn pow2(n: nat) -> nat
    decreases n,
{
    if n == 0 {
        1
    } else {
        2 * pow2((n - 1) as nat)
    }
}

proof fn lemma_bin_value_push(s: Seq<u8>, b: u8)
    ensures
        bin_value(s.push(b)) == 2 * bin_value(s) + (if b == ONE { 1nat } else { 0nat }),
{
    assert(s.push(b).drop_last() =~= s);
}

proof fn lemma_zeros_prefix(k: nat, s: Seq<u8>)
    ensures
        bin_value(zeros(k) + s) == bin_value(s),
        all_bin_digits(zeros(k) + s) == all_bin_digits(s),
    decreases s.len(),
{
    if s.len() == 0 {
        assert(zeros(k) + s =~= zeros(k));
        lemma_zeros_value(k);
        assert(all_bin_digits(zeros(k)));
    } else {
        lemma_zeros_prefix(k, s.drop_last());
        assert((zeros(k) + s).drop_last() =~= zeros(k) + s.drop_last());
        assert((zeros(k) + s).last() == s.last());
        assert(s.drop_last().push(s.last()) =~= s);
        assert((zeros(k) + s.drop_last()).push(s.last()) =~= zeros(k) + s);
        if all_bin_digits(s) {
            assert forall|i: int| 0 <= i < (zeros(k) + s).len() implies #[trigger] is_bin_digit(
                (zeros(k) + s)[i],
            ) by {
                if i >= k {
                    assert((zeros(k) + s)[i] == s[i - k]);
                }
            }
        }
        if all_bin_digits(zeros(k) + s) {
            assert forall|i: int| 0 <= i < s.len() implies #[trigger] is_bin_digit(s[i]) by {
                assert((zeros(k) + s)[i + k] == s[i]);
            }
        }
    }
}

proof fn lemma_zeros_value(k: nat)
    ensures
        bin_value(zeros(k)) == 0,
    decreases k,
{
    if k > 0 {
        lemma_zeros_value((k - 1) as nat);
        assert(zeros(k).drop_last() =~= zeros((k - 1) as nat));
    }
}

/// Leading zeros do not change the reading of a bitmask: for any non-empty
/// text `s` that does not itself start with `+`, the text made of `k` digits
/// `0` followed by `s`, with or without a leading `+`, reads as `s` does.
pub proof fn law_leading_zeros_ignored(k: nat, s: Seq<u8>)
    requires
        s.len() > 0,
        s[0] != PLUS,
    ensures
        spec_parse_mask(zeros(k) + s) == spec_parse_mask(s),
        spec_parse_mask(seq![PLUS] + zeros(k) + s) == spec_parse_mask(s),
{
    lemma_zeros_prefix(k, s);
    let t = zeros(k) + s;
    assert(t[0] != PLUS) by {
        if k > 0 {
            assert(t[0] == ZERO);
        } else {
            assert(t[0] == s[0]);
        }
    }
    assert(mask_digits(t) =~= t);
    assert(mask_digits(s) =~= s);
    assert((seq![PLUS] + zeros(k) + s)[0] == PLUS);
    assert(mask_digits(seq![PLUS] + zeros(k) + s) =~= t);
}

proof fn lemma_bin_digits_value(v: nat, n: nat)
    requires
        v < pow2(n),
    ensures
        bin_value(bin_digits(v, n)) == v,
        all_bin_digits(bin_digits(v, n)),
        bin_digits(v, n).len() == n,
    decreases n,
{
    if n == 0 {
    } else {
        let p = pow2((n - 1) as nat);
        assert(v / 2 < p);
        lemma_bin_digits_value(v / 2, (n - 1) as nat);
        let b: u8 = if v % 2 == 1 { ONE } else { ZERO };
        lemma_bin_value_push(bin_digits(v / 2, (n - 1) as nat), b);
        let s = bin_digits(v, n);
        let r = bin_digits(v / 2, (n - 1) as nat);
        assert forall|i: int| 0 <= i < s.len() implies #[trigger] is_bin_digit(s[i]) by {
            if i < r.len() {
                assert(s[i] == r[i]);
            }
        }
    }
}

/// Any value written in base 2 with enough digits, leading zeros included
/// (for instance a byte written as 8 digits), reads back as that value.
pub proof fn law_padded_binary_reads_back(v: u8, n: nat)
    requires
        n > 0,
        (v as nat) < pow2(n),
    ensures
        spec_parse_mask(bin_digits(v as nat, n)) == Some(v),
{
    lemma_bin_digits_value(v as nat, n);
    let s = bin_digits(v as nat, n);
    assert(is_bin_digit(s[0]));
    assert(mask_digits(s) =~= s);
}

proof fn lemma_digits_are_numeral(d: Seq<u8>)
    requires
        all_bin_digits(d),
    ensures
        d =~= bin_digits(bin_value(d), d.len()),
    decreases d.len(),
{
    if d.len() > 0 {
        let r = d.drop_last();
        assert(all_bin_digits(r)) by {
            assert forall|i: int| 0 <= i < r.len() implies #[trigger] is_bin_digit(r[i]) by {
                assert(r[i] == d[i]);
            }
        }
        lemma_digits_are_numeral(r);
        assert(is_bin_digit(d[d.len() - 1]));
        let v = bin_value(d);
        assert(v / 2 == bin_value(r));
        assert(r.push(d.last()) =~= d);
    }
}

/// A text is read as a bitmask `v` only when it is an optional `+` followed
/// by `v` written in base 2 (with any number of leading zeros): no other
/// character, no empty numeral, and no value above 255 is ever accepted.
pub proof fn law_accepted_text_is_numeral(s: Seq<u8>)
    requires
        spec_parse_mask(s) is Some,
    ensures
        ({
            let v = spec_parse_mask(s)->0;
            let d = mask_digits(s);
            &&& d.len() > 0
            &&& (s =~= d || s =~= seq![PLUS] + d)
            &&& d =~= bin_digits(v as nat, d.len())
        }),
{
    let d = mask_digits(s);
    lemma_digits_are_numeral(d);
    if s.len() > 0 && s[0] == PLUS {
        assert(s =~= seq![PLUS] + d);
    }
}

/// Every byte written as exactly 8 base-2 digits reads back as itself.
pub proof fn law_byte_as_eight_digits_reads_back(v: u8)
    ensures
        bin_digits(v as nat, 8).len() == 8,
        spec_parse_mask(bin_digits(v as nat, 8)) == Some(v),
{
    assert(pow2(8) == 256) by {
        reveal_with_fuel(pow2, 9);
    }
    law_padded_binary_reads_back(v, 8);
    lemma_bin_digits_value(v as nat, 8);
}

} // verus!
