use vstd::prelude::*;

verus! {

/// The uppercase hexadecimal digit for a value below sixteen.
pub open spec fn hex_digit(n: nat) -> char {
    if n < 10 {
        ((n + 48) as u8) as char
    } else {
        ((n + 55) as u8) as char
    }
}

/// Whether `c` is one of `0`-`9` or `A`-`F`.
pub open spec fn is_upper_hex(c: char) -> bool {
    ('0' <= c && c <= '9') || ('A' <= c && c <= 'F')
}

/// Sixteen to the power `k`.
pub open spec fn pow16(k: nat) -> nat
    decreases k,
{
    if k == 0 {
        1
    } else {
        16 * pow16((k - 1) as nat)
    }
}

/// The lowest `k` hexadecimal digits of `v`, most significant first.
pub open spec fn hex_digits(v: nat, k: nat) -> Seq<char>
    decreases k,
{
    if k == 0 {
        Seq::empty()
    } else {
        hex_digits(v / 16, (k - 1) as nat).push(hex_digit(v % 16))
    }
}

/// The textual form of a digest: thirty-two uppercase hexadecimal digits,
/// zero-padded on the left.
pub open spec fn digest_text(d: u128) -> Seq<char> {
    hex_digits(d as nat, 32)
}

/// Relies on String::push: the character is appended at the end.
#[verifier::external_body]
pub(crate) fn push_char(s: &mut String, c: char)
    ensures
        final(s)@ == old(s)@.push(c),
{
    s.push(c)
}

fn digit_char(n: u8) -> (c: char)
    requires
        n < 16,
    ensures
        c == hex_digit(n as nat),
{
    if n < 10 {
        (n + 48) as char
    } else {
        (n + 55) as char
    }
}

fn render_digits(v: u128, k: usize) -> (r: String)
    ensures
        r@ == hex_digits(v as nat, k as nat),
    decreases k,
{
    if k == 0 {
        String::new()
    } else {
        let mut s = render_digits(v / 16, k - 1);
        push_char(&mut s, digit_char((v % 16) as u8));
        s
    }
}

/// Renders a digest as it stands in a manifest.
pub fn render_digest(d: u128) -> (r: String)
    ensures
        r@ == digest_text(d),
{
    render_digits(d, 32)
}

proof fn lemma_hex_digit_shape(n: nat)
    requires
        n < 16,
    ensures
        is_upper_hex(hex_digit(n)),
{
}

proof fn lemma_hex_digit_injective(n: nat, m: nat)
    requires
        n < 16,
        m < 16,
        hex_digit(n) == hex_digit(m),
    ensures
        n == m,
{
    assert((hex_digit(n) as u32) == (hex_digit(m) as u32));
}

proof fn lemma_hex_digits_shape(v: nat, k: nat)
    ensures
        hex_digits(v, k).len() == k,
        forall|i: int| 0 <= i < k ==> is_upper_hex(#[trigger] hex_digits(v, k)[i]),
    decreases k,
{
    if k > 0 {
        lemma_hex_digits_shape(v / 16, (k - 1) as nat);
        lemma_hex_digit_shape(v % 16);
    }
}

proof fn lemma_hex_digits_padded(v: nat, k: nat, j: nat)
    requires
        j <= k,
        v < pow16(j),
    ensures
        forall|i: int| 0 <= i < k - j ==> #[trigger] hex_digits(v, k)[i] == '0',
    decreases k,
{
    lemma_hex_digits_shape(v, k);
    if k > 0 {
        if j == 0 {
            lemma_hex_digits_padded(v / 16, (k - 1) as nat, 0);
        } else {
            let p = pow16((j - 1) as nat);
            assert(v / 16 < p) by (nonlinear_arith)
                requires
                    v < 16 * p,
            ;
            lemma_hex_digits_padded(v / 16, (k - 1) as nat, (j - 1) as nat);
        }
        lemma_hex_digits_shape(v / 16, (k - 1) as nat);
        assert forall|i: int| 0 <= i < k - j implies #[trigger] hex_digits(v, k)[i] == '0' by {
            if i < k - 1 {
                assert(hex_digits(v, k)[i] == hex_digits(v / 16, (k - 1) as nat)[i]);
            } else {
                assert(v == 0);
                assert(hex_digits(v, k)[i] == hex_digit(v % 16));
            }
        }
    }
}

proof fn lemma_hex_digits_injective(v: nat, w: nat, k: nat)
    requires
        v < pow16(k),
        w < pow16(k),
        hex_digits(v, k) == hex_digits(w, k),
    ensures
        v == w,
    decreases k,
{
    if k > 0 {
        let p = pow16((k - 1) as nat);
        let a = hex_digits(v, k);
        lemma_hex_digits_shape(v / 16, (k - 1) as nat);
        lemma_hex_digits_shape(w / 16, (k - 1) as nat);
        assert(a[k - 1] == hex_digit(v % 16));
        assert(hex_digits(w, k)[k - 1] == hex_digit(w % 16));
        lemma_hex_digit_injective(v % 16, w % 16);
        assert(a.drop_last() == hex_digits(v / 16, (k - 1) as nat));
        assert(hex_digits(w, k).drop_last() == hex_digits(w / 16, (k - 1) as nat));
        assert(v / 16 < p && w / 16 < p) by (nonlinear_arith)
            requires
                v < 16 * p,
                w < 16 * p,
        ;
        lemma_hex_digits_injective(v / 16, w / 16, (k - 1) as nat);
    }
}

proof fn lemma_pow16_32()
    ensures
        pow16(32) == 0x1_0000_0000_0000_0000_0000_0000_0000_0000,
{
    reveal_with_fuel(pow16, 33);
}

/// A digest always renders as exactly thirty-two uppercase hexadecimal
/// digits.
pub proof fn lemma_digest_text_shape(d: u128)
    ensures
        digest_text(d).len() == 32,
        forall|i: int| 0 <= i < 32 ==> is_upper_hex(#[trigger] digest_text(d)[i]),
{
    lemma_hex_digits_shape(d as nat, 32);
}

/// A digest below `16^k` renders with `0` in every place but its last `k`;
/// in particular the digest zero renders as thirty-two zeros.
pub proof fn lemma_digest_text_zero_padded(d: u128, k: nat)
    requires
        k <= 32,
        d < pow16(k),
    ensures
        forall|i: int| 0 <= i < 32 - k ==> #[trigger] digest_text(d)[i] == '0',
{
    lemma_hex_digits_padded(d as nat, 32, k);
}

/// Two digests render alike only when they are equal.
pub proof fn lemma_digest_text_injective(a: u128, b: u128)
    requires
        digest_text(a) == digest_text(b),
    ensures
        a == b,
{
    lemma_pow16_32();
    lemma_hex_digits_injective(a as nat, b as nat, 32);
}

} // verus!
