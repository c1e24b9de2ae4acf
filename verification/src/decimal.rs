//! Exact parsing of the directory's decimal text fields.
//!
//! The directory hands back numbers as text: a rating such as `"4.5"`, a
//! coordinate such as `"-33.85837"`. The library reads these into fixed-point
//! integers. The accepted shape is one or more ASCII digits, optionally
//! followed by a dot and one or more further digits; at most nine digits may
//! stand before the dot, so every accepted value fits comfortably in 64 bits.
//! Fractional digits beyond the requested scale are cut off (the value is
//! rounded toward zero). Specifications are stated over the UTF-8 bytes of
//! the input.
use vstd::prelude::*;
use vstd::string::StringSliceAdditionalSpecFns;

verus! {

/// An ASCII digit byte.
pub open spec fn is_digit(b: u8) -> bool {
    48 <= b && b <= 57
}

/// Numeric value of an ASCII digit byte.
pub open spec fn digit_val(b: u8) -> nat {
    (b - 48) as nat
}

/// Every byte is an ASCII digit.
pub open spec fn all_digits(s: Seq<u8>) -> bool {
    forall|i: int| 0 <= i < s.len() ==> is_digit(#[trigger] s[i])
}

/// Value of a digit string read in base ten.
pub open spec fn digits_val(s: Seq<u8>) -> nat
    decreases s.len(),
{
    if s.len() == 0 {
        0
    } else {
        10 * digits_val(s.drop_last()) + digit_val(s.last())
    }
}

/// Ten to the power `n`.
pub open spec fn pow10(n: nat) -> nat
    decreases n,
{
    if n == 0 {
        1
    } else {
        10 * pow10((n - 1) as nat)
    }
}

/// The byte string splits at position `k` into digits, a dot, and more
/// digits, with at least one digit on each side.
pub open spec fn dot_split_at(s: Seq<u8>, k: int) -> bool {
    &&& 1 <= k
    &&& k + 1 < s.len()
    &&& s[k] == 46u8
    &&& all_digits(s.take(k))
    &&& all_digits(s.skip(k + 1))
}

/// A well-formed unsigned decimal: digits, or digits-dot-digits.
pub open spec fn decimal_wf(s: Seq<u8>) -> bool {
    (s.len() >= 1 && all_digits(s)) || (exists|k: int| dot_split_at(s, k))
}

/// Length of the integer part of a well-formed decimal.
pub open spec fn int_len(s: Seq<u8>) -> int {
    if s.len() >= 1 && all_digits(s) {
        s.len() as int
    } else {
        choose|k: int| dot_split_at(s, k)
    }
}

/// A well-formed decimal with at most nine integer digits.
pub open spec fn decimal_parseable(s: Seq<u8>) -> bool {
    decimal_wf(s) && int_len(s) <= 9
}

/// Value of a fractional digit string at scale `fd`: the first `fd` digits,
/// padded with zeros when fewer are given.
pub open spec fn frac_scaled(s: Seq<u8>, fd: nat) -> nat {
    if s.len() >= fd {
        digits_val(s.take(fd as int))
    } else {
        digits_val(s) * pow10((fd - s.len()) as nat)
    }
}

/// Value of a well-formed decimal in units of `10^-fd`.
pub open spec fn decimal_scaled(s: Seq<u8>, fd: nat) -> nat {
    if s.len() >= 1 && all_digits(s) {
        digits_val(s) * pow10(fd)
    } else {
        digits_val(s.take(int_len(s))) * pow10(fd) + frac_scaled(s.skip(int_len(s) + 1), fd)
    }
}

/// A rating text in hundredths; anything malformed counts as zero, as does an
/// absent rating at the caller.
pub open spec fn rating_value(s: Seq<u8>) -> nat {
    if decimal_parseable(s) {
        decimal_scaled(s, 2)
    } else {
        0
    }
}

/// A decimal text with an optional leading minus sign, at scale `10^-fd`, or
/// `None` when malformed.
pub open spec fn signed_scaled(s: Seq<u8>, fd: nat) -> Option<int> {
    if s.len() >= 1 && s[0] == 45u8 {
        if decimal_parseable(s.skip(1)) {
            Some(-(decimal_scaled(s.skip(1), fd) as int))
        } else {
            None
        }
    } else {
        if decimal_parseable(s) {
            Some(decimal_scaled(s, fd) as int)
        } else {
            None
        }
    }
}

/// A coordinate text (optionally negative) in microdegrees, or `None` when
/// malformed.
pub open spec fn coordinate_microdeg(s: Seq<u8>) -> Option<int> {
    signed_scaled(s, 6)
}

/// A plain unsigned integer text of at most nine digits, or `None`.
pub open spec fn integer_value(s: Seq<u8>) -> Option<int> {
    if s.len() >= 1 && s.len() <= 9 && all_digits(s) {
        Some(digits_val(s) as int)
    } else {
        None
    }
}

/// At most one position can split a decimal at its dot.
proof fn lemma_dot_unique(s: Seq<u8>, k1: int, k2: int)
    requires
        dot_split_at(s, k1),
        dot_split_at(s, k2),
    ensures
        k1 == k2,
{
    if k1 < k2 {
        assert(s.skip(k1 + 1)[k2 - k1 - 1] == s[k2]);
        assert(is_digit(s[k2]));
    }
    if k2 < k1 {
        assert(s.skip(k2 + 1)[k1 - k2 - 1] == s[k1]);
        assert(is_digit(s[k1]));
    }
}

/// A digit string's value is below ten to its length.
proof fn lemma_digits_val_bound(s: Seq<u8>)
    requires
        all_digits(s),
    ensures
        digits_val(s) < pow10(s.len()),
    decreases s.len(),
{
    if s.len() > 0 {
        assert(forall|i: int|
            0 <= i < s.drop_last().len() ==> is_digit(#[trigger] s.drop_last()[i]));
        lemma_digits_val_bound(s.drop_last());
        assert(is_digit(s.last()));
    }
}

proof fn lemma_pow10_pos(n: nat)
    ensures
        pow10(n) >= 1,
    decreases n,
{
    if n > 0 {
        lemma_pow10_pos((n - 1) as nat);
    }
}

proof fn lemma_pow10_mono(a: nat, b: nat)
    requires
        a <= b,
    ensures
        pow10(a) <= pow10(b),
    decreases b,
{
    if a < b {
        lemma_pow10_mono(a, (b - 1) as nat);
        lemma_pow10_pos((b - 1) as nat);
    }
}

proof fn lemma_pow10_add(a: nat, b: nat)
    ensures
        pow10(a) * pow10(b) == pow10(a + b),
    decreases b,
{
    if b == 0 {
        assert(pow10(b) == 1);
        assert(pow10(a) * pow10(b) == pow10(a)) by (nonlinear_arith)
            requires
                pow10(b) == 1,
        ;
    } else {
        lemma_pow10_add(a, (b - 1) as nat);
        let p = pow10((b - 1) as nat);
        assert(pow10(b) == 10 * p);
        assert(pow10(a + b) == 10 * pow10((a + b - 1) as nat));
        assert(pow10(a) * pow10(b) == 10 * (pow10(a) * p)) by (nonlinear_arith)
            requires
                pow10(b) == 10 * p,
        ;
        assert(10 * (pow10(a) * p) == 10 * pow10((a + b - 1) as nat));
        assert(pow10(a) * pow10(b) == pow10(a + b)) by (nonlinear_arith)
            requires
                pow10(a) * pow10(b) == 10 * (pow10(a) * p),
                10 * (pow10(a) * p) == 10 * pow10((a + b - 1) as nat),
                pow10(a + b) == 10 * pow10((a + b - 1) as nat),
        ;
    }
}

pub proof fn lemma_pow10_concrete()
    ensures
        pow10(0) == 1,
        pow10(1) == 10,
        pow10(2) == 100,
        pow10(3) == 1000,
        pow10(4) == 10_000,
        pow10(5) == 100_000,
        pow10(6) == 1_000_000,
        pow10(7) == 10_000_000,
        pow10(8) == 100_000_000,
        pow10(9) == 1_000_000_000,
{
    assert(pow10(0) == 1);
    assert(pow10(1) == 10);
    assert(pow10(2) == 100);
    assert(pow10(3) == 1000);
    assert(pow10(4) == 10_000);
    assert(pow10(5) == 100_000);
    assert(pow10(6) == 1_000_000);
    assert(pow10(7) == 10_000_000);
    assert(pow10(8) == 100_000_000);
    assert(pow10(9) == 1_000_000_000);
}

/// Every parseable decimal's scaled value stays far below `u64::MAX`.
proof fn lemma_scaled_bound(s: Seq<u8>, fd: nat)
    requires
        decimal_parseable(s),
        fd <= 6,
    ensures
        decimal_scaled(s, fd) < 10_000_000_000_000_000,
{
    lemma_pow10_concrete();
    lemma_pow10_mono(fd, 6);
    lemma_pow10_pos(fd);
    if s.len() >= 1 && all_digits(s) {
        lemma_digits_val_bound(s);
        lemma_pow10_mono(s.len(), 9);
        assert(digits_val(s) * pow10(fd) < 1_000_000_000 * 1_000_000) by (nonlinear_arith)
            requires
                digits_val(s) < 1_000_000_000,
                pow10(fd) <= 1_000_000,
                pow10(fd) >= 1,
        ;
    } else {
        let k = int_len(s);
        assert(dot_split_at(s, k));
        lemma_digits_val_bound(s.take(k));
        lemma_pow10_mono(s.take(k).len() as nat, 9);
        assert(digits_val(s.take(k)) * pow10(fd) < 1_000_000_000 * 1_000_000)
            by (nonlinear_arith)
            requires
                digits_val(s.take(k)) < 1_000_000_000,
                pow10(fd) <= 1_000_000,
                pow10(fd) >= 1,
        ;
        lemma_frac_scaled_bound(s.skip(k + 1), fd);
    }
}

/// A fractional string's scaled value is below the scale itself.
proof fn lemma_frac_scaled_bound(s: Seq<u8>, fd: nat)
    requires
        all_digits(s),
    ensures
        frac_scaled(s, fd) < pow10(fd),
{
    if s.len() >= fd {
        assert(forall|i: int|
            0 <= i < s.take(fd as int).len() ==> is_digit(#[trigger] s.take(fd as int)[i]));
        lemma_digits_val_bound(s.take(fd as int));
    } else {
        lemma_digits_val_bound(s);
        lemma_pow10_add(s.len(), (fd - s.len()) as nat);
        lemma_pow10_pos((fd - s.len()) as nat);
        assert(digits_val(s) * pow10((fd - s.len()) as nat) < pow10(s.len()) * pow10(
            (fd - s.len()) as nat,
        )) by (nonlinear_arith)
            requires
                digits_val(s) < pow10(s.len()),
                pow10((fd - s.len()) as nat) >= 1,
        ;
    }
}

/// A rating text's value in hundredths stays far below `u64::MAX`.
pub proof fn lemma_rating_value_bound(s: Seq<u8>)
    ensures
        rating_value(s) < 10_000_000_000_000_000,
{
    if decimal_parseable(s) {
        lemma_scaled_bound(s, 2);
    }
}

/// Core parser over bytes: `Some` exactly on parseable input, with the exact
/// scaled value.
fn parse_scaled_bytes(b: &[u8], frac_digits: u32) -> (r: Option<u64>)
    requires
        frac_digits <= 6,
    ensures
        match r {
            Some(v) => decimal_parseable(b@) && v == decimal_scaled(b@, frac_digits as nat) && v
                < 10_000_000_000_000_000,
            None => !decimal_parseable(b@),
        },
{
    proof {
        lemma_pow10_concrete();
    }
    let n = b.len();
    if n == 0 {
        return None;
    }
    let ghost s = b@;
    let mut i: usize = 0;
    let mut acc: u64 = 0;
    while i < n && b[i] != 46u8
        invariant
            n == s.len(),
            b@ == s,
            0 <= i <= n,
            i <= 9,
            frac_digits <= 6,
            all_digits(s.take(i as int)),
            acc == digits_val(s.take(i as int)),
            acc < pow10(i as nat),
            pow10(9) == 1_000_000_000,
        decreases n - i,
    {
        let d = b[i];
        if d < 48 || d > 57 {
            // neither digit nor dot at position i: no well-formed reading
            proof {
                assert(!(s.len() >= 1 && all_digits(s)));
                assert forall|k: int| !dot_split_at(s, k) by {
                    if dot_split_at(s, k) {
                        if k < i {
                            assert(s.take(i as int)[k] == s[k]);
                            assert(is_digit(s[k]));
                        } else if k > i {
                            assert(s.take(k)[i as int] == s[i as int]);
                            assert(is_digit(s[i as int]));
                        } else {
                            assert(s[k] == 46u8);
                        }
                    }
                }
            }
            return None;
        }
        if i == 9 {
            // a tenth integer digit: the integer part is too long
            proof {
                assert forall|k: int| dot_split_at(s, k) implies k > 9 by {
                    if k < i {
                        assert(s.take(i as int)[k] == s[k]);
                        assert(is_digit(s[k]));
                    } else if k == i {
                        assert(is_digit(s[k]));
                    }
                }
                if decimal_wf(s) {
                    if s.len() >= 1 && all_digits(s) {
                        assert(int_len(s) == s.len());
                        assert(s.len() >= 10);
                    } else {
                        let k = choose|k: int| dot_split_at(s, k);
                        assert(dot_split_at(s, k));
                        assert(int_len(s) == k);
                        assert(k > 9);
                    }
                }
            }
            return None;
        }
        proof {
            lemma_pow10_mono(i as nat, 9);
            assert(acc < 1_000_000_000);
            assert(s.take(i + 1).drop_last() =~= s.take(i as int));
            assert(s.take(i + 1).last() == s[i as int]);
            assert(forall|j: int|
                0 <= j < s.take(i + 1).len() ==> is_digit(#[trigger] s.take(i + 1)[j]));
            lemma_pow10_mono((i + 1) as nat, 9);
        }
        acc = acc * 10 + ((d - 48) as u64);
        i = i + 1;
    }
    // loop left: either the input is exhausted or a dot stands at i
    if i == n {
        // pure integer: scale it up
        proof {
            assert(s.take(n as int) =~= s);
            assert(int_len(s) == n);
            lemma_pow10_mono(frac_digits as nat, 6);
            lemma_pow10_pos(frac_digits as nat);
            lemma_pow10_mono(i as nat, 9);
            assert(acc * pow10(frac_digits as nat) < 1_000_000_000 * 1_000_000)
                by (nonlinear_arith)
                requires
                    acc < 1_000_000_000,
                    pow10(frac_digits as nat) <= 1_000_000,
                    pow10(frac_digits as nat) >= 1,
            ;
        }
        let scale = pow10_u64(frac_digits);
        return Some(acc * scale);
    }
    // a dot at position i
    if i == 0 {
        // leading dot: no integer digits
        proof {
            assert(!is_digit(s[0]));
            assert forall|k: int| !dot_split_at(s, k) by {
                if dot_split_at(s, k) {
                    assert(s.take(k)[0] == s[0]);
                    assert(is_digit(s[0]));
                }
            }
        }
        return None;
    }
    let frac_start = i + 1;
    if frac_start == n {
        // trailing dot: no fractional digits
        proof {
            assert(!(s.len() >= 1 && all_digits(s)));
            assert forall|k: int| !dot_split_at(s, k) by {
                if dot_split_at(s, k) {
                    if k < i {
                        assert(s.take(i as int)[k] == s[k]);
                        assert(is_digit(s[k]));
                    }
                    if k > i {
                        assert(s.take(k)[i as int] == s[i as int]);
                        assert(is_digit(s[i as int]));
                    }
                    assert(k == i);
                }
            }
        }
        return None;
    }
    // validate the fractional digits
    let mut j = frac_start;
    while j < n
        invariant
            n == s.len(),
            b@ == s,
            frac_start <= j <= n,
            i + 1 == frac_start,
            1 <= i < n,
            s[i as int] == 46u8,
            all_digits(s.take(i as int)),
            all_digits(s.subrange(frac_start as int, j as int)),
        decreases n - j,
    {
        let d = b[j];
        if d < 48 || d > 57 {
            // a stray byte among the fractional digits
            proof {
                assert(!is_digit(s[j as int]));
                assert(!(s.len() >= 1 && all_digits(s)));
                assert forall|k: int| !dot_split_at(s, k) by {
                    if dot_split_at(s, k) {
                        if k < i {
                            assert(s.take(i as int)[k] == s[k]);
                            assert(is_digit(s[k]));
                        }
                        if k > i {
                            assert(s.take(k)[i as int] == s[i as int]);
                            assert(is_digit(s[i as int]));
                        }
                        assert(k == i);
                        assert(s.skip(i + 1)[j - i - 1] == s[j as int]);
                        assert(is_digit(s[j as int]));
                    }
                }
            }
            return None;
        }
        proof {
            assert(s.subrange(frac_start as int, j + 1).drop_last() =~= s.subrange(
                frac_start as int,
                j as int,
            ));
            assert(forall|t: int|
                0 <= t < s.subrange(frac_start as int, j + 1).len() ==> is_digit(
                    #[trigger] s.subrange(frac_start as int, j + 1)[t],
                ));
        }
        j = j + 1;
    }
    proof {
        assert(s.subrange(frac_start as int, n as int) =~= s.skip(i + 1));
        assert(all_digits(s.take(i as int)));
        assert(dot_split_at(s, i as int));
        let k0 = choose|k: int| dot_split_at(s, k);
        assert(dot_split_at(s, k0));
        lemma_dot_unique(s, k0, i as int);
        assert(int_len(s) == i);
        assert(!(s.len() >= 1 && all_digits(s))) by {
            assert(!is_digit(s[i as int]));
        }
        assert(decimal_parseable(s));
    }
    // accumulate the first `frac_digits` fractional digits
    let flen = n - frac_start;
    let m = if (frac_digits as usize) < flen {
        frac_digits as usize
    } else {
        flen
    };
    let mut t: usize = 0;
    let mut fa: u64 = 0;
    while t < m
        invariant
            n == s.len(),
            b@ == s,
            frac_start + m <= n,
            m <= 6,
            0 <= t <= m,
            frac_start == i + 1,
            all_digits(s.skip(frac_start as int)),
            fa == digits_val(s.subrange(frac_start as int, (frac_start + t) as int)),
            fa < pow10(t as nat),
            pow10(6) == 1_000_000,
        decreases m - t,
    {
        let d = b[frac_start + t];
        proof {
            assert(s.skip(frac_start as int)[t as int] == s[(frac_start + t) as int]);
            assert(is_digit(s[(frac_start + t) as int]));
            assert(s.subrange(frac_start as int, frac_start + t + 1).drop_last() =~= s.subrange(
                frac_start as int,
                (frac_start + t) as int,
            ));
            lemma_pow10_mono((t + 1) as nat, 6);
        }
        fa = fa * 10 + ((d - 48) as u64);
        t = t + 1;
    }
    let frac_part: u64 = if flen < frac_digits as usize {
        proof {
            assert(s.subrange(frac_start as int, (frac_start + m) as int) =~= s.skip(
                frac_start as int,
            ));
            lemma_digits_val_bound(s.skip(frac_start as int));
            lemma_pow10_add(flen as nat, (frac_digits as nat - flen as nat) as nat);
            lemma_pow10_mono(frac_digits as nat, 6);
            lemma_pow10_pos((frac_digits as nat - flen as nat) as nat);
            assert(fa * pow10((frac_digits as nat - flen as nat) as nat) < pow10(
                frac_digits as nat,
            )) by (nonlinear_arith)
                requires
                    fa < pow10(flen as nat),
                    pow10(flen as nat) * pow10((frac_digits as nat - flen as nat) as nat) == pow10(
                        frac_digits as nat,
                    ),
                    pow10((frac_digits as nat - flen as nat) as nat) >= 1,
            ;
        }
        fa * pow10_u64(frac_digits - flen as u32)
    } else {
        proof {
            assert(s.subrange(frac_start as int, (frac_start + m) as int) =~= s.skip(
                frac_start as int,
            ).take(frac_digits as int));
            lemma_frac_scaled_bound(s.skip(frac_start as int), frac_digits as nat);
            lemma_pow10_mono(frac_digits as nat, 6);
        }
        fa
    };
    proof {
        assert(frac_part == frac_scaled(s.skip(i + 1), frac_digits as nat));
        assert(frac_part < 1_000_000);
        lemma_digits_val_bound(s.take(i as int));
        lemma_pow10_mono(i as nat, 9);
        lemma_pow10_mono(frac_digits as nat, 6);
        lemma_pow10_pos(frac_digits as nat);
        assert(acc * pow10(frac_digits as nat) < 1_000_000_000 * 1_000_000) by (nonlinear_arith)
            requires
                acc < 1_000_000_000,
                pow10(frac_digits as nat) <= 1_000_000,
                pow10(frac_digits as nat) >= 1,
        ;
    }
    let scale = pow10_u64(frac_digits);
    Some(acc * scale + frac_part)
}

/// The decimal digit bytes of `n`, most significant first.
pub open spec fn byte_digits(n: nat) -> Seq<u8>
    decreases n,
{
    if n < 10 {
        seq![(48 + n) as u8]
    } else {
        byte_digits(n / 10).push((48 + n % 10) as u8)
    }
}

/// Exactly `w` digit bytes spelling `n`, zero-padded at the front.
pub open spec fn fixed_digits(n: nat, w: nat) -> Seq<u8>
    decreases w,
{
    if w == 0 {
        Seq::empty()
    } else {
        seq![(48 + n / pow10((w - 1) as nat)) as u8] + fixed_digits(
            n % pow10((w - 1) as nat),
            (w - 1) as nat,
        )
    }
}

proof fn lemma_byte_digits(n: nat)
    ensures
        all_digits(byte_digits(n)),
        byte_digits(n).len() >= 1,
        digits_val(byte_digits(n)) == n,
    decreases n,
{
    if n < 10 {
        assert(byte_digits(n) =~= seq![(48 + n) as u8]);
        assert(digits_val(byte_digits(n)) == 10 * digits_val(
            byte_digits(n).drop_last(),
        ) + digit_val((48 + n) as u8));
        assert(byte_digits(n).drop_last() =~= Seq::empty());
    } else {
        lemma_byte_digits(n / 10);
        let s = byte_digits(n);
        assert(s.drop_last() =~= byte_digits(n / 10));
        assert(s.last() == (48 + n % 10) as u8);
        assert(forall|i: int| 0 <= i < s.len() ==> is_digit(#[trigger] s[i])) by {
            assert(forall|i: int|
                0 <= i < s.len() - 1 ==> s[i] == #[trigger] byte_digits(n / 10)[i]);
        }
        assert(digits_val(s) == 10 * (n / 10) + n % 10);
    }
}

proof fn lemma_byte_digits_len(n: nat, k: nat)
    requires
        n < pow10(k),
        k >= 1,
    ensures
        byte_digits(n).len() <= k,
    decreases k,
{
    if n < 10 {
    } else {
        assert(pow10(k) == 10 * pow10((k - 1) as nat));
        assert(n / 10 < pow10((k - 1) as nat)) by (nonlinear_arith)
            requires
                n < 10 * pow10((k - 1) as nat),
        ;
        if k - 1 == 0 {
            lemma_pow10_pos(0);
            assert(n / 10 == 0) by (nonlinear_arith)
                requires
                    n / 10 < pow10(0),
                    pow10(0) == 1,
            ;
        } else {
            lemma_byte_digits_len(n / 10, (k - 1) as nat);
        }
    }
}

proof fn lemma_digits_val_concat(a: Seq<u8>, b: Seq<u8>)
    ensures
        digits_val(a + b) == digits_val(a) * pow10(b.len()) + digits_val(b),
    decreases b.len(),
{
    if b.len() == 0 {
        assert(a + b =~= a);
        assert(pow10(b.len()) == 1);
        assert(digits_val(a) * pow10(b.len()) == digits_val(a)) by (nonlinear_arith)
            requires
                pow10(b.len()) == 1,
        ;
    } else {
        assert((a + b).drop_last() =~= a + b.drop_last());
        lemma_digits_val_concat(a, b.drop_last());
        assert((a + b).last() == b.last());
        assert(digits_val(a + b) == 10 * (digits_val(a) * pow10(b.drop_last().len())
            + digits_val(b.drop_last())) + digit_val(b.last()));
        assert(10 * (digits_val(a) * pow10((b.len() - 1) as nat)) == digits_val(a) * (10 * pow10(
            (b.len() - 1) as nat,
        ))) by (nonlinear_arith);
        assert(pow10(b.len()) == 10 * pow10((b.len() - 1) as nat));
    }
}

proof fn lemma_fixed_digits(n: nat, w: nat)
    requires
        n < pow10(w),
    ensures
        all_digits(fixed_digits(n, w)),
        fixed_digits(n, w).len() == w,
        digits_val(fixed_digits(n, w)) == n,
    decreases w,
{
    if w == 0 {
        lemma_pow10_pos(0);
    } else {
        let p = pow10((w - 1) as nat);
        lemma_pow10_pos((w - 1) as nat);
        assert(pow10(w) == 10 * p);
        let d = n / p;
        let r = n % p;
        assert(d < 10 && r < p && d * p + r == n) by (nonlinear_arith)
            requires
                n < 10 * p,
                p >= 1,
                d == n / p,
                r == n % p,
        ;
        lemma_fixed_digits(r, (w - 1) as nat);
        let head = seq![(48 + d) as u8];
        let tail = fixed_digits(r, (w - 1) as nat);
        lemma_digits_val_concat(head, tail);
        assert(digits_val(head) == 10 * digits_val(head.drop_last()) + digit_val((48 + d) as u8));
        assert(head.drop_last() =~= Seq::empty());
        assert(fixed_digits(n, w) =~= head + tail);
        assert(forall|i: int|
            0 <= i < (head + tail).len() ==> is_digit(#[trigger] (head + tail)[i]));
        assert(digits_val(fixed_digits(n, w)) == d * p + r);
    }
}

/// Append the digits of `n`, most significant first.
fn push_int_digits(out: &mut Vec<u8>, n: u64)
    ensures
        final(out)@ == old(out)@ + byte_digits(n as nat),
    decreases n,
{
    if n < 10 {
        out.push(48 + n as u8);
        proof {
            assert(out@ =~= old(out)@ + byte_digits(n as nat));
        }
    } else {
        let ghost base = out@;
        push_int_digits(out, n / 10);
        out.push(48 + (n % 10) as u8);
        proof {
            assert(out@ =~= base + byte_digits(n as nat));
        }
    }
}

/// Append exactly `width` digits of `n`, zero-padded at the front.
fn push_fixed_digits(out: &mut Vec<u8>, n: u64, width: u32)
    requires
        width <= 6,
        n < pow10(width as nat),
    ensures
        final(out)@ == old(out)@ + fixed_digits(n as nat, width as nat),
    decreases width,
{
    if width == 0 {
        proof {
            assert(out@ =~= old(out)@ + fixed_digits(n as nat, 0));
        }
        return ;
    }
    let ghost base = out@;
    let p = pow10_u64(width - 1);
    proof {
        lemma_pow10_pos((width - 1) as nat);
        assert(pow10(width as nat) == 10 * pow10((width - 1) as nat));
        assert(n / p < 10 && n % p < p) by (nonlinear_arith)
            requires
                n < 10 * p,
                p >= 1,
                p == pow10((width - 1) as nat),
        ;
    }
    out.push(48 + (n / p) as u8);
    push_fixed_digits(out, n % p, width - 1);
    proof {
        assert(out@ =~= base + fixed_digits(n as nat, width as nat));
    }
}

/// Relies on `String::from_utf8`: ASCII bytes are valid UTF-8 and decode to
/// the characters with the same code points.
#[verifier::external_body]
fn string_from_ascii(bytes: Vec<u8>) -> (s: String)
    requires
        forall|i: int| 0 <= i < bytes@.len() ==> bytes@[i] < 128,
    ensures
        vstd::utf8::encode_utf8(s@) == bytes@,
{
    match String::from_utf8(bytes) {
        Ok(s) => s,
        Err(_) => String::new(),
    }
}

/// Exact table of small powers of ten.
fn pow10_u64(e: u32) -> (r: u64)
    requires
        e <= 6,
    ensures
        r == pow10(e as nat),
{
    proof {
        lemma_pow10_concrete();
    }
    match e {
        0 => 1,
        1 => 10,
        2 => 100,
        3 => 1000,
        4 => 10_000,
        5 => 100_000,
        _ => 1_000_000,
    }
}

/// Parse an unsigned decimal at a chosen fractional scale.
pub fn parse_scaled(s: &str, frac_digits: u32) -> (r: Option<u64>)
    requires
        frac_digits <= 6,
    ensures
        match r {
            Some(v) => decimal_parseable(s.spec_bytes()) && v == decimal_scaled(
                s.spec_bytes(),
                frac_digits as nat,
            ) && v < 10_000_000_000_000_000,
            None => !decimal_parseable(s.spec_bytes()),
        },
{
    parse_scaled_bytes(s.as_bytes(), frac_digits)
}

/// Parse a rating text into hundredths; malformed text counts as zero.
pub fn parse_rating(s: &str) -> (r: u64)
    ensures
        r == rating_value(s.spec_bytes()),
        r < 10_000_000_000_000_000,
{
    match parse_scaled(s, 2) {
        Some(v) => v,
        None => 0,
    }
}

/// Parse a decimal text with an optional leading minus sign at a chosen
/// fractional scale.
pub fn parse_signed(s: &str, frac_digits: u32) -> (r: Option<i64>)
    requires
        frac_digits <= 6,
    ensures
        match r {
            Some(v) => signed_scaled(s.spec_bytes(), frac_digits as nat) == Some(v as int)
                && -10_000_000_000_000_000 < v < 10_000_000_000_000_000,
            None => signed_scaled(s.spec_bytes(), frac_digits as nat) is None,
        },
{
    let b = s.as_bytes();
    if b.len() >= 1 && b[0] == 45u8 {
        let rest = b.split_at(1).1;
        proof {
            assert(rest@ =~= b@.skip(1));
        }
        match parse_scaled_bytes(rest, frac_digits) {
            Some(v) => Some(-(v as i64)),
            None => None,
        }
    } else {
        match parse_scaled_bytes(b, frac_digits) {
            Some(v) => Some(v as i64),
            None => None,
        }
    }
}

/// Parse a coordinate text into microdegrees; `None` when malformed.
pub fn parse_coordinate(s: &str) -> (r: Option<i64>)
    ensures
        match r {
            Some(v) => coordinate_microdeg(s.spec_bytes()) == Some(v as int),
            None => coordinate_microdeg(s.spec_bytes()) is None,
        },
{
    parse_signed(s, 6)
}

/// A well-formed decimal opens with a digit.
pub proof fn lemma_wf_first_digit(s: Seq<u8>)
    requires
        decimal_wf(s),
    ensures
        s.len() >= 1,
        is_digit(s[0]),
{
    if s.len() >= 1 && all_digits(s) {
        assert(is_digit(s[0]));
    } else {
        let k = choose|k: int| dot_split_at(s, k);
        assert(dot_split_at(s, k));
        assert(s.take(k)[0] == s[0]);
        assert(is_digit(s[0]));
    }
}

/// Every well-formed decimal consists of ASCII bytes.
proof fn lemma_decimal_ascii(s: Seq<u8>)
    requires
        decimal_wf(s),
    ensures
        forall|i: int| 0 <= i < s.len() ==> s[i] < 128,
{
    if s.len() >= 1 && all_digits(s) {
        assert(forall|i: int| 0 <= i < s.len() ==> is_digit(#[trigger] s[i]));
    } else {
        let k = choose|k: int| dot_split_at(s, k);
        assert(dot_split_at(s, k));
        assert forall|i: int| 0 <= i < s.len() implies s[i] < 128 by {
            if i < k {
                assert(s.take(k)[i] == s[i]);
                assert(is_digit(s[i]));
            } else if i > k {
                assert(s.skip(k + 1)[i - k - 1] == s[i]);
                assert(is_digit(s[i]));
            }
        }
    }
}

/// Append the canonical decimal spelling of `value` at scale `10^-fd`: the
/// integer part, then the fraction with its trailing zeros trimmed.
#[verifier::rlimit(50)]
fn push_scaled(out: &mut Vec<u8>, value: u64, frac_digits: u32)
    requires
        frac_digits <= 6,
        (value as nat) < 1_000_000_000 * pow10(frac_digits as nat),
    ensures
        final(out)@.len() > old(out)@.len(),
        final(out)@.subrange(0, old(out)@.len() as int) == old(out)@,
        decimal_parseable(final(out)@.skip(old(out)@.len() as int)),
        decimal_scaled(final(out)@.skip(old(out)@.len() as int), frac_digits as nat) == value,
        is_digit(final(out)@.skip(old(out)@.len() as int)[0]),
        frac_digits == 0 ==> integer_value(final(out)@.skip(old(out)@.len() as int)) == Some(
            value as int,
        ),
{
    let ghost base = out@;
    proof {
        lemma_pow10_pos(frac_digits as nat);
        lemma_pow10_concrete();
    }
    let scale = pow10_u64(frac_digits);
    let int_part = value / scale;
    let frac0 = value % scale;
    proof {
        assert(int_part < 1_000_000_000 && (frac0 as nat) < pow10(frac_digits as nat) && (
        int_part as nat) * pow10(frac_digits as nat) + frac0 == value) by (nonlinear_arith)
            requires
                (value as nat) < 1_000_000_000 * pow10(frac_digits as nat),
                scale == pow10(frac_digits as nat),
                scale >= 1,
                int_part == value / scale,
                frac0 == value % scale,
        ;
        lemma_byte_digits(int_part as nat);
        lemma_byte_digits_len(int_part as nat, 9);
    }
    push_int_digits(out, int_part);
    let ghost intseq = byte_digits(int_part as nat);
    let mut frac = frac0;
    let mut width = frac_digits;
    proof {
        assert(pow10((frac_digits - width) as nat) == 1);
        assert((frac as nat) * 1 == frac0);
    }
    while width > 0 && frac % 10 == 0
        invariant
            width <= frac_digits <= 6,
            (frac as nat) < pow10(width as nat),
            (frac as nat) * pow10((frac_digits - width) as nat) == frac0,
        decreases width,
    {
        proof {
            lemma_pow10_pos((width - 1) as nat);
            assert(pow10(width as nat) == 10 * pow10((width - 1) as nat));
            assert(pow10((frac_digits - width + 1) as nat) == 10 * pow10(
                (frac_digits - width) as nat,
            ));
            let f2 = (frac / 10) as nat;
            assert(f2 * 10 == frac && f2 < pow10((width - 1) as nat)) by (nonlinear_arith)
                requires
                    frac % 10 == 0,
                    f2 == (frac / 10) as nat,
                    (frac as nat) < 10 * pow10((width - 1) as nat),
            ;
            assert(f2 * pow10((frac_digits - width + 1) as nat) == (f2 * 10) * pow10(
                (frac_digits - width) as nat,
            )) by (nonlinear_arith)
                requires
                    pow10((frac_digits - width + 1) as nat) == 10 * pow10(
                        (frac_digits - width) as nat,
                    ),
            ;
        }
        frac = frac / 10;
        width = width - 1;
    }
    if width > 0 {
        out.push(46);
        push_fixed_digits(out, frac, width);
        proof {
            lemma_fixed_digits(frac as nat, width as nat);
            let fseq = fixed_digits(frac as nat, width as nat);
            assert(out@ =~= base + intseq + seq![46u8] + fseq);
            let suffix = out@.skip(base.len() as int);
            assert(suffix =~= intseq + seq![46u8] + fseq);
            assert(out@.subrange(0, base.len() as int) =~= base);
            let k = intseq.len() as int;
            assert(suffix[k] == 46u8);
            assert(suffix.take(k) =~= intseq);
            assert(suffix.skip(k + 1) =~= fseq);
            assert(dot_split_at(suffix, k));
            assert(!(suffix.len() >= 1 && all_digits(suffix))) by {
                assert(!is_digit(suffix[k]));
            }
            let k0 = choose|j: int| dot_split_at(suffix, j);
            assert(dot_split_at(suffix, k0));
            lemma_dot_unique(suffix, k0, k);
            assert(int_len(suffix) == k);
            assert(decimal_parseable(suffix));
            assert(frac_scaled(suffix.skip(k + 1), frac_digits as nat) == frac0) by {
                assert(suffix.skip(k + 1) == fseq);
                assert(fseq.len() == width);
                assert(digits_val(fseq) == frac as nat);
                if width == frac_digits {
                    assert(fseq.take(frac_digits as int) =~= fseq);
                    assert(pow10((frac_digits - width) as nat) == 1);
                    assert((frac as nat) * pow10((frac_digits - width) as nat) == frac as nat)
                        by (nonlinear_arith)
                        requires
                            pow10((frac_digits - width) as nat) == 1,
                    ;
                    assert(frac_scaled(fseq, frac_digits as nat) == frac as nat);
                } else {
                    assert(fseq.len() < frac_digits);
                    assert(frac_scaled(fseq, frac_digits as nat) == (frac as nat) * pow10(
                        (frac_digits - width) as nat,
                    ));
                }
            }
            assert(decimal_scaled(suffix, frac_digits as nat) == value);
            assert(is_digit(suffix[0]));
            assert(frac_digits > 0);
        }
    } else {
        proof {
            assert(pow10(0) == 1);
            assert(frac == 0);
            assert((0 as nat) * pow10((frac_digits - width) as nat) == 0) by (nonlinear_arith);
            assert(frac0 == 0);
            assert(out@ =~= base + intseq);
            let suffix = out@.skip(base.len() as int);
            assert(suffix =~= intseq);
            assert(out@.subrange(0, base.len() as int) =~= base);
            assert(decimal_parseable(suffix));
            assert(decimal_scaled(suffix, frac_digits as nat) == (int_part as nat) * pow10(
                frac_digits as nat,
            ));
            assert(is_digit(suffix[0]));
            if frac_digits == 0 {
                assert(suffix.len() <= 9);
                assert((int_part as nat) * pow10(frac_digits as nat) == int_part as nat)
                    by (nonlinear_arith)
                    requires
                        pow10(frac_digits as nat) == 1,
                ;
                assert(int_part == value);
                assert(integer_value(suffix) == Some(value as int));
            }
        }
    }
}

/// Format a value at scale `10^-fd` as canonical decimal text; parsing the
/// text back at the same scale returns exactly the value.
pub fn format_scaled(value: u64, frac_digits: u32) -> (s: String)
    requires
        frac_digits <= 6,
        (value as nat) < 1_000_000_000 * pow10(frac_digits as nat),
    ensures
        decimal_parseable(vstd::utf8::encode_utf8(s@)),
        decimal_scaled(vstd::utf8::encode_utf8(s@), frac_digits as nat) == value,
        frac_digits == 0 ==> integer_value(vstd::utf8::encode_utf8(s@)) == Some(value as int),
{
    let mut out: Vec<u8> = Vec::new();
    push_scaled(&mut out, value, frac_digits);
    proof {
        assert(out@.skip(0) =~= out@);
        lemma_decimal_ascii(out@);
    }
    string_from_ascii(out)
}

/// Format microdegrees as signed coordinate text; parsing the text back
/// returns exactly the value.
pub fn format_coordinate(v: i64) -> (s: String)
    requires
        -1_000_000_000_000_000 < v < 1_000_000_000_000_000,
    ensures
        coordinate_microdeg(vstd::utf8::encode_utf8(s@)) == Some(v as int),
{
    proof {
        lemma_pow10_concrete();
    }
    let mut out: Vec<u8> = Vec::new();
    if v < 0 {
        out.push(45);
        proof {
            assert(out@ =~= seq![45u8]);
        }
        let ghost pre = out@;
        push_scaled(&mut out, (-v) as u64, 6);
        proof {
            let bytes = out@;
            assert(bytes.subrange(0, 1) == pre);
            assert(bytes.subrange(0, 1)[0] == bytes[0]);
            assert(bytes[0] == 45u8);
            assert(decimal_parseable(bytes.skip(1)));
            lemma_decimal_ascii(bytes.skip(1));
            assert forall|i: int| 0 <= i < bytes.len() implies bytes[i] < 128 by {
                if i >= 1 {
                    assert(bytes.skip(1)[i - 1] == bytes[i]);
                }
            }
        }
        string_from_ascii(out)
    } else {
        push_scaled(&mut out, v as u64, 6);
        proof {
            assert(out@.skip(0) =~= out@);
            lemma_decimal_ascii(out@);
            assert(out@[0] != 45u8) by {
                assert(is_digit(out@[0]));
            }
        }
        string_from_ascii(out)
    }
}

/// Parse a plain unsigned integer text of at most nine digits.
pub fn parse_integer(s: &str) -> (r: Option<u64>)
    ensures
        match r {
            Some(v) => integer_value(s.spec_bytes()) == Some(v as int) && v < 1_000_000_000,
            None => integer_value(s.spec_bytes()) is None,
        },
{
    proof {
        lemma_pow10_concrete();
    }
    let b = s.as_bytes();
    let n = b.len();
    if n == 0 || n > 9 {
        return None;
    }
    let ghost sq = b@;
    let mut i: usize = 0;
    let mut acc: u64 = 0;
    while i < n
        invariant
            n == sq.len(),
            b@ == sq,
            sq == s.spec_bytes(),
            1 <= n <= 9,
            0 <= i <= n,
            all_digits(sq.take(i as int)),
            acc == digits_val(sq.take(i as int)),
            acc < pow10(i as nat),
            pow10(9) == 1_000_000_000,
        decreases n - i,
    {
        let d = b[i];
        if d < 48 || d > 57 {
            return None;
        }
        proof {
            lemma_pow10_mono(i as nat, 9);
            assert(sq.take(i + 1).drop_last() =~= sq.take(i as int));
            assert(forall|j: int|
                0 <= j < sq.take(i + 1).len() ==> is_digit(#[trigger] sq.take(i + 1)[j]));
            lemma_pow10_mono((i + 1) as nat, 9);
        }
        acc = acc * 10 + ((d - 48) as u64);
        i = i + 1;
    }
    proof {
        assert(sq.take(n as int) =~= sq);
        lemma_pow10_mono(n as nat, 9);
    }
    Some(acc)
}

} // verus!
