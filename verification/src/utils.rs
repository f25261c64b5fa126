use vstd::prelude::*;
use base64::Engine;
use rand::Rng;

verus! {

/// The decimal digits of `n`, as ASCII bytes, most significant first.
pub open spec fn spec_decimal(n: nat) -> Seq<u8>
    decreases n,
{
    if n < 10 {
        seq![(48 + n) as u8]
    } else {
        spec_decimal(n / 10).push((48 + n % 10) as u8)
    }
}

/// `10^k`.
spec fn pow10(k: nat) -> nat
    decreases k,
{
    if k == 0 {
        1
    } else {
        10 * pow10((k - 1) as nat)
    }
}

/// A number below `10^k` has at most `k` decimal digits.
proof fn lemma_decimal_len(n: nat, k: nat)
    requires
        1 <= k,
        n < pow10(k),
    ensures
        1 <= spec_decimal(n).len() <= k,
    decreases k,
{
    if n < 10 {
    } else {
        assert(pow10(k) == 10 * pow10((k - 1) as nat));
        assert(n / 10 < pow10((k - 1) as nat)) by (nonlinear_arith)
            requires
                n < 10 * pow10((k - 1) as nat),
                10 <= n,
        ;
        assert(k >= 2) by {
            if k == 1 {
                assert(pow10(1nat) == 10);
            }
        }
        lemma_decimal_len(n / 10, (k - 1) as nat);
    }
}

/// Appends the decimal rendering of `n` to `out`.
fn push_decimal(n: u32, out: &mut Vec<u8>)
    ensures
        final(out)@ == old(out)@ + spec_decimal(n as nat),
    decreases n,
{
    if n < 10 {
        out.push(48 + n as u8);
        assert(final(out)@ =~= old(out)@ + spec_decimal(n as nat));
    } else {
        push_decimal(n / 10, out);
        out.push(48 + (n % 10) as u8);
        assert(final(out)@ =~= old(out)@ + spec_decimal(n as nat));
    }
}

/// The decimal rendering of `n`, as ASCII bytes.
pub fn u32_to_decimal(n: u32) -> (r: Vec<u8>)
    ensures
        r@ == spec_decimal(n as nat),
        1 <= r@.len() <= 10,
{
    let mut out: Vec<u8> = Vec::new();
    push_decimal(n, &mut out);
    assert(out@ =~= spec_decimal(n as nat));
    proof {
        reveal_with_fuel(pow10, 11);
        assert(pow10(10) == 10_000_000_000);
        lemma_decimal_len(n as nat, 10);
    }
    out
}

/// The padding-free, URL-safe base64 rendering of a byte sequence.
pub uninterp spec fn base64url_of(bytes: Seq<u8>) -> Seq<char>;

/// Whether `c` may stand unescaped in a URL path segment: a letter, a digit,
/// `-` or `_` (the RFC 4648 base64url alphabet).
pub open spec fn is_url_safe_char(c: char) -> bool {
    ||| 65 <= c as int <= 90
    ||| 97 <= c as int <= 122
    ||| 48 <= c as int <= 57
    ||| c == '-'
    ||| c == '_'
}

/// Relies on base64's `URL_SAFE_NO_PAD` engine: RFC 4648 base64url without
/// padding, a function of the input bytes alone, over the alphabet
/// `A-Z a-z 0-9 - _`, with the standard unpadded output length.
#[verifier::external_body]
fn encode_base64url(bytes: &Vec<u8>) -> (r: String)
    ensures
        r@ == base64url_of(bytes@),
        r@.len() == (bytes@.len() * 4 + 2) / 3,
        forall|i: int| 0 <= i < r@.len() ==> is_url_safe_char(#[trigger] r@[i]),
{
    base64::engine::general_purpose::URL_SAFE_NO_PAD.encode(bytes.as_slice())
}

/// Relies on rand's `thread_rng` and `gen_range` over `0..u32::MAX`: a fresh
/// uniform sample below `u32::MAX`; nothing else holds of any one draw.
#[verifier::external_body]
fn random_below_u32_max() -> (r: u32)
    ensures
        r < u32::MAX,
{
    rand::thread_rng().gen_range(0..u32::MAX)
}

/// The identifier derived deterministically from `n`: the base64url rendering
/// of its decimal digits.
pub fn encode_id(n: u32) -> (r: String)
    ensures
        r@ == base64url_of(spec_decimal(n as nat)),
        2 <= r@.len() <= 14,
        forall|i: int| 0 <= i < r@.len() ==> is_url_safe_char(#[trigger] r@[i]),
{
    let digits = u32_to_decimal(n);
    encode_base64url(&digits)
}

/// A short, URL-safe identifier drawn from the 32-bit space. Distinct calls
/// may collide; uniqueness is enforced only by the store on insert.
pub fn generate_id() -> (r: String)
    ensures
        exists|n: u32| r@ == base64url_of(spec_decimal(n as nat)),
        2 <= r@.len() <= 14,
        forall|i: int| 0 <= i < r@.len() ==> is_url_safe_char(#[trigger] r@[i]),
{
    let n: u32 = random_below_u32_max();
    let r = encode_id(n);
    assert(r@ == base64url_of(spec_decimal(n as nat)));
    r
}

/// Maps an internal failure to the generic internal-error response: status
/// 500 with the failure's message as the body.
pub fn internal_error(message: String) -> (r: (u16, String))
    ensures
        r.0 == 500,
        r.1@ == message@,
{
    (500, message)
}

} // verus!
