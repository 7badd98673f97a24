//! The hexadecimal SHA-256 digest and the decimal rendering of the
//! integer fields that feed it.

use vstd::prelude::*;

verus! {

/// The decimal digits of `n` as ASCII bytes, most significant first,
/// without a sign and without leading zeros (`0` is rendered as `"0"`).
pub open spec fn dec_rep(n: nat) -> Seq<u8>
    decreases n,
{
    if n < 10 {
        seq![(48 + n) as u8]
    } else {
        dec_rep(n / 10) + seq![(48 + n % 10) as u8]
    }
}

/// The decimal digits of `n`, with a leading `'-'` when `n` is negative.
pub open spec fn dec_rep_signed(n: int) -> Seq<u8> {
    if n >= 0 {
        dec_rep(n as nat)
    } else {
        seq![45u8] + dec_rep((-n) as nat)
    }
}

/// Appends the decimal rendering of `n` to `out`.
pub fn push_dec_u64(n: u64, out: &mut Vec<u8>)
    ensures
        final(out)@ == old(out)@ + dec_rep(n as nat),
    decreases n,
{
    if n < 10 {
        out.push((48 + n) as u8);
        assert(out@ =~= old(out)@ + dec_rep(n as nat));
    } else {
        push_dec_u64(n / 10, out);
        out.push((48 + (n % 10)) as u8);
        assert(out@ =~= old(out)@ + dec_rep(n as nat));
    }
}

/// Appends the decimal rendering of `n`, sign included, to `out`.
pub fn push_dec_i64(n: i64, out: &mut Vec<u8>)
    ensures
        final(out)@ == old(out)@ + dec_rep_signed(n as int),
{
    if n >= 0 {
        push_dec_u64(n as u64, out);
    } else {
        out.push(45);
        let magnitude: u64 = (-(n as i128)) as u64;
        assert(magnitude as nat == (-(n as int)) as nat);
        push_dec_u64(magnitude, out);
        assert(out@ =~= old(out)@ + dec_rep_signed(n as int));
    }
}

/// Every byte of `dec_rep(n)` is an ASCII digit; the rendering is never
/// empty, and is a single digit exactly when `n < 10`.
pub proof fn lemma_dec_rep_digits(n: nat)
    ensures
        dec_rep(n).len() >= 1,
        dec_rep(n).len() == 1 <==> n < 10,
        forall|i: int| 0 <= i < dec_rep(n).len() ==> 48 <= #[trigger] dec_rep(n)[i] <= 57,
    decreases n,
{
    if n >= 10 {
        lemma_dec_rep_digits(n / 10);
        assert forall|i: int| 0 <= i < dec_rep(n).len() implies 48 <= #[trigger] dec_rep(n)[i]
            <= 57 by {
            if i < dec_rep(n / 10).len() {
                assert(dec_rep(n)[i] == dec_rep(n / 10)[i]);
            } else {
                assert(dec_rep(n)[i] == (48 + n % 10) as u8);
            }
        }
    }
}

/// No two naturals share a decimal rendering.
pub proof fn lemma_dec_rep_injective(m: nat, n: nat)
    requires
        dec_rep(m) == dec_rep(n),
    ensures
        m == n,
    decreases m,
{
    lemma_dec_rep_digits(m);
    lemma_dec_rep_digits(n);
    if m < 10 && n < 10 {
        assert(dec_rep(m)[0] == (48 + m) as u8);
        assert(dec_rep(n)[0] == (48 + n) as u8);
    } else if m >= 10 && n >= 10 {
        let a = dec_rep(m / 10);
        let b = dec_rep(n / 10);
        lemma_dec_rep_digits(m / 10);
        lemma_dec_rep_digits(n / 10);
        assert(a.len() == b.len());
        assert(a =~= b) by {
            assert forall|i: int| 0 <= i < a.len() implies a[i] == b[i] by {
                assert(dec_rep(m)[i] == a[i]);
                assert(dec_rep(n)[i] == b[i]);
            }
        }
        lemma_dec_rep_injective(m / 10, n / 10);
        assert(dec_rep(m)[a.len() as int] == (48 + m % 10) as u8);
        assert(dec_rep(n)[a.len() as int] == (48 + n % 10) as u8);
        assert(m % 10 == n % 10);
        assert(m == 10 * (m / 10) + m % 10);
        assert(n == 10 * (n / 10) + n % 10);
    }
}

/// A signed rendering starts with `'-'` exactly when `n` is negative and
/// otherwise holds ASCII digits alone.
pub proof fn lemma_dec_rep_signed_digits(n: int)
    ensures
        dec_rep_signed(n).len() >= 1,
        forall|i: int|
            0 <= i < dec_rep_signed(n).len() ==> (#[trigger] dec_rep_signed(n)[i] == 45 || 48
                <= dec_rep_signed(n)[i] <= 57),
        dec_rep_signed(n)[0] == 45 <==> n < 0,
{
    if n >= 0 {
        lemma_dec_rep_digits(n as nat);
    } else {
        lemma_dec_rep_digits((-n) as nat);
        assert forall|i: int|
            0 <= i < dec_rep_signed(n).len() implies (#[trigger] dec_rep_signed(n)[i] == 45 || 48
            <= dec_rep_signed(n)[i] <= 57) by {
            if i >= 1 {
                assert(dec_rep_signed(n)[i] == dec_rep((-n) as nat)[i - 1]);
            }
        }
    }
}

/// No two integers share a signed decimal rendering.
pub proof fn lemma_dec_rep_signed_injective(m: int, n: int)
    requires
        dec_rep_signed(m) == dec_rep_signed(n),
    ensures
        m == n,
{
    lemma_dec_rep_signed_digits(m);
    lemma_dec_rep_signed_digits(n);
    if m >= 0 && n >= 0 {
        lemma_dec_rep_injective(m as nat, n as nat);
    } else if m < 0 && n < 0 {
        assert(dec_rep((-m) as nat) =~= dec_rep_signed(m).subrange(
            1,
            dec_rep_signed(m).len() as int,
        ));
        assert(dec_rep((-n) as nat) =~= dec_rep_signed(n).subrange(
            1,
            dec_rep_signed(n).len() as int,
        ));
        lemma_dec_rep_injective((-m) as nat, (-n) as nat);
    }
}

/// Two byte strings of the shape `prefix + [sep] + rest`, with the
/// separator absent from both prefixes, are equal as wholes only when
/// prefixes and rests agree part for part.
pub proof fn lemma_separator_split(a1: Seq<u8>, r1: Seq<u8>, a2: Seq<u8>, r2: Seq<u8>, sep: u8)
    requires
        a1 + seq![sep] + r1 == a2 + seq![sep] + r2,
        forall|i: int| 0 <= i < a1.len() ==> #[trigger] a1[i] != sep,
        forall|i: int| 0 <= i < a2.len() ==> #[trigger] a2[i] != sep,
    ensures
        a1 == a2,
        r1 == r2,
{
    let s = a1 + seq![sep] + r1;
    let t = a2 + seq![sep] + r2;
    if a1.len() < a2.len() {
        assert(s[a1.len() as int] == sep);
        assert(t[a1.len() as int] == a2[a1.len() as int]);
        assert(false);
    } else if a2.len() < a1.len() {
        assert(t[a2.len() as int] == sep);
        assert(s[a2.len() as int] == a1[a2.len() as int]);
        assert(false);
    }
    assert(a1 =~= a2) by {
        assert forall|i: int| 0 <= i < a1.len() implies a1[i] == a2[i] by {
            assert(s[i] == a1[i]);
            assert(t[i] == a2[i]);
        }
    }
    assert(s.len() == t.len());
    assert(r1.len() == r2.len());
    assert(r1 =~= r2) by {
        assert forall|i: int| 0 <= i < r1.len() implies r1[i] == r2[i] by {
            assert(s[a1.len() + 1 + i] == r1[i]);
            assert(t[a2.len() + 1 + i] == r2[i]);
        }
    }
}

/// The lowercase hexadecimal SHA-256 digest of a byte sequence.
pub uninterp spec fn digest_of(bytes: Seq<u8>) -> Seq<char>;

/// Relies on rust-crypto's `crypto::sha2::Sha256` with `Digest::input` and
/// `Digest::result_str`: the returned string is the lowercase hexadecimal
/// SHA-256 digest of the input bytes, a function of those bytes alone.
#[verifier::external_body]
pub(crate) fn sha256_hex(bytes: &Vec<u8>) -> (r: String)
    ensures
        r@ == digest_of(bytes@),
{
    let mut hasher = crypto::sha2::Sha256::new();
    crypto::digest::Digest::input(&mut hasher, bytes.as_slice());
    crypto::digest::Digest::result_str(&mut hasher)
}

} // verus!
