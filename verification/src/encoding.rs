//! Identifiers as text and as bytes: positional notation over an alphabet
//! of digits, the eight bytes of the number, and base64 of those bytes.

use crate::layout::field;
use vstd::arithmetic::power2::{lemma2_to64, pow2};
use vstd::prelude::*;
use vstd::string::*;

verus! {

/// Digits of decimal notation.
pub const DECIMAL_DIGITS: &'static str = "0123456789";

/// Digits of binary notation.
pub const BASE2_DIGITS: &'static str = "01";

/// The 32 digits of base-32 notation, the digit of value 0 first.
pub const ENCODE_BASE32_MAP: &'static str = "ybndrfg8ejkmcpqxot1uwisza345h769";

/// The 36 digits of base-36 notation: the ten figures, then the lower-case
/// letters.
pub const ENCODE_BASE36_MAP: &'static str = "0123456789abcdefghijklmnopqrstuvwxyz";

/// The 58 digits of base-58 notation, the digit of value 0 first.
pub const ENCODE_BASE58_MAP: &'static str =
    "123456789abcdefghijkmnopqrstuvwxyzABCDEFGHJKLMNPQRSTUVWXYZ";

/// The 64 digits of base64 in the standard alphabet, the digit of value 0
/// first.
pub const BASE64_DIGITS: &'static str =
    "ABCDEFGHIJKLMNOPQRSTUVWXYZabcdefghijklmnopqrstuvwxyz0123456789+/";

/// The digits of `n` in positional notation to the base `base`, the most
/// significant first; 0 has the one digit 0.
pub open spec fn digits(n: nat, base: nat) -> Seq<nat>
    decreases n,
    via digits_shorten
{
    if base < 2 || n < base {
        seq![n]
    } else {
        digits(n / base, base).push(n % base)
    }
}

#[via_fn]
proof fn digits_shorten(n: nat, base: nat) {
    if base >= 2 && n >= base {
        assert(n / base < n) by (nonlinear_arith)
            requires
                base >= 2,
                n >= base,
        ;
    }
}

/// The number that a sequence of digits to the base `base` stands for.
pub open spec fn value(ds: Seq<nat>, base: nat) -> nat
    decreases ds.len(),
{
    if ds.len() == 0 {
        0
    } else {
        value(ds.drop_last(), base) * base + ds.last()
    }
}

/// The text of `n` in positional notation over `alphabet`, whose length is
/// the base and whose character at index `d` is the digit of value `d`.
pub open spec fn encode(n: nat, alphabet: Seq<char>) -> Seq<char> {
    digits(n, alphabet.len()).map_values(|d: nat| alphabet[d as int])
}

/// The eight bytes of `n`, the most significant first.
pub open spec fn be_bytes(n: u64) -> Seq<u8> {
    Seq::new(8, |i: int| ((n as nat / pow2((8 * (7 - i)) as nat)) % 256) as u8)
}

/// The digits of `id` to the base `base`, the most significant first.
pub fn radix_digits(id: u64, base: u64) -> (ds: Vec<u64>)
    requires
        base >= 2,
    ensures
        ds@.map_values(|d: u64| d as nat) == digits(id as nat, base as nat),
        forall|i: int| 0 <= i < ds.len() ==> ds[i] < base,
        ds.len() >= 1,
{
    let mut low: Vec<u64> = Vec::new();
    let mut rest = id;
    let ghost mut tail: Seq<nat> = Seq::empty();
    while rest >= base
        invariant
            base >= 2,
            digits(id as nat, base as nat) == digits(rest as nat, base as nat) + tail,
            low.len() == tail.len(),
            forall|i: int| 0 <= i < low.len() ==> low[i] as nat == tail[tail.len() - 1 - i],
            forall|i: int| 0 <= i < low.len() ==> low[i] < base,
        decreases rest,
    {
        let digit = rest % base;
        proof {
            let shorter = digits((rest / base) as nat, base as nat);
            assert(shorter.push(digit as nat) + tail =~= shorter + (seq![digit as nat] + tail));
            tail = seq![digit as nat] + tail;
        }
        low.push(digit);
        rest = rest / base;
    }
    proof {
        tail = seq![rest as nat] + tail;
        assert(digits(rest as nat, base as nat) + tail.drop_first() =~= tail);
    }
    low.push(rest);
    let mut ds: Vec<u64> = Vec::new();
    let mut i = low.len();
    while i > 0
        invariant
            i <= low.len(),
            low.len() == tail.len(),
            ds.len() == low.len() - i,
            forall|k: int| 0 <= k < low.len() ==> low[k] as nat == tail[tail.len() - 1 - k],
            forall|k: int| 0 <= k < low.len() ==> low[k] < base,
            forall|k: int| 0 <= k < ds.len() ==> ds[k] as nat == tail[k],
            forall|k: int| 0 <= k < ds.len() ==> ds[k] < base,
        decreases i,
    {
        i = i - 1;
        ds.push(low[i]);
    }
    assert(ds@.map_values(|d: u64| d as nat) =~= tail);
    ds
}

/// The text of `id` in positional notation over `alphabet`.
pub fn encode_radix(id: u64, alphabet: &str) -> (text: String)
    requires
        alphabet@.len() >= 2,
    ensures
        text@ == encode(id as nat, alphabet@),
{
    let base = alphabet.unicode_len();
    let ds = radix_digits(id, base as u64);
    let ghost all = digits(id as nat, alphabet@.len());
    let mut text = String::new();
    let mut i: usize = 0;
    while i < ds.len()
        invariant
            i <= ds.len(),
            base == alphabet@.len(),
            ds@.map_values(|d: u64| d as nat) == all,
            forall|k: int| 0 <= k < ds.len() ==> ds[k] < base,
            text@ == all.subrange(0, i as int).map_values(|d: nat| alphabet@[d as int]),
        decreases ds.len() - i,
    {
        let digit = ds[i] as usize;
        let ghost before = text@;
        text.append(alphabet.substring_char(digit, digit + 1));
        proof {
            assert(all[i as int] == ds@.map_values(|d: u64| d as nat)[i as int]);
            assert(alphabet@.subrange(digit as int, digit + 1) =~= seq![alphabet@[digit as int]]);
            assert(all.subrange(0, i + 1) =~= all.subrange(0, i as int).push(all[i as int]));
            assert(text@ =~= all.subrange(0, i + 1).map_values(|d: nat| alphabet@[d as int]));
        }
        i = i + 1;
    }
    assert(all.subrange(0, i as int) =~= all);
    text
}

/// The text of `n` in decimal notation.
pub fn decimal(n: u64) -> (text: String)
    ensures
        text@ == encode(n as nat, DECIMAL_DIGITS@),
{
    proof {
        reveal_strlit("0123456789");
    }
    encode_radix(n, DECIMAL_DIGITS)
}

/// The eight bytes of `n`, the most significant first.
pub fn to_be_bytes(n: u64) -> (bytes: [u8; 8])
    ensures
        bytes@ == be_bytes(n),
{
    proof {
        lemma2_to64();
    }
    let bytes = [
        field(n, 56, 8) as u8,
        field(n, 48, 8) as u8,
        field(n, 40, 8) as u8,
        field(n, 32, 8) as u8,
        field(n, 24, 8) as u8,
        field(n, 16, 8) as u8,
        field(n, 8, 8) as u8,
        field(n, 0, 8) as u8,
    ];
    assert(bytes@ =~= be_bytes(n));
    bytes
}

/// The base64 text, in the standard alphabet and padded, of eight bytes
/// that stand for the number `n`: the 64 bits of the number with two zero
/// bits below them, six bits to a digit and the most significant digit
/// first, which makes eleven digits; then one `=` to fill the last group of
/// four.
pub open spec fn base64_text(n: nat) -> Seq<char> {
    Seq::new(
        11,
        |i: int| BASE64_DIGITS@[((n * 4 / pow2((6 * (10 - i)) as nat)) % 64) as int],
    ).push('=')
}

/// What `base64::Engine::encode` of the engine
/// `base64::engine::general_purpose::STANDARD` makes of eight bytes: the
/// base64 text of the number that the bytes stand for, read as digits to
/// the base 256 with the most significant first.
pub open spec fn base64_standard(bytes: Seq<u8>) -> Seq<char> {
    base64_text(value(bytes.map_values(|b: u8| b as nat), 256))
}

/// Calls `base64::Engine::encode` on the engine
/// `base64::engine::general_purpose::STANDARD`. Trusted: for eight bytes
/// the engine gives eleven digits of its alphabet, `BASE64_DIGITS`, each
/// for six bits of the bytes in their order, the last for the four bits
/// that are left and two zero bits, and then the one pad character `=`.
#[verifier::external_body]
fn base64_of(bytes: &[u8; 8]) -> (text: String)
    ensures
        text@ == base64_standard(bytes@),
{
    base64::Engine::encode(&base64::engine::general_purpose::STANDARD, bytes)
}

/// The base64 text, in the standard alphabet and padded, of the eight bytes
/// of `id`.
pub fn encode_base64(id: u64) -> (text: String)
    ensures
        text@ == base64_text(id as nat),
        text@ == base64_standard(be_bytes(id)),
{
    proof {
        lemma_value_of_be_bytes(id);
    }
    let bytes = to_be_bytes(id);
    base64_of(&bytes)
}

/// Positional notation loses nothing: the digits of a number stand for
/// that number, and each of them is below the base.
pub proof fn lemma_value_of_digits(n: nat, base: nat)
    requires
        base >= 2,
    ensures
        value(digits(n, base), base) == n,
        forall|i: int| 0 <= i < digits(n, base).len() ==> digits(n, base)[i] < base,
        digits(n, base).len() >= 1,
    decreases n,
{
    let ds = digits(n, base);
    if n < base {
        assert(ds =~= seq![n]);
        assert(ds.drop_last() =~= Seq::<nat>::empty());
        assert(value(ds.drop_last(), base) == 0);
        assert(value(ds, base) == 0 * base + n);
    } else {
        assert(n / base < n) by (nonlinear_arith)
            requires
                base >= 2,
                n >= base,
        ;
        lemma_value_of_digits(n / base, base);
        let shorter = digits(n / base, base);
        assert(ds == shorter.push(n % base));
        assert(ds.drop_last() =~= shorter);
        assert(ds.last() == n % base);
        assert(value(ds, base) == value(shorter, base) * base + n % base);
        assert((n / base) * base + n % base == n) by (nonlinear_arith)
            requires
                base >= 2,
        ;
        assert(n % base < base) by (nonlinear_arith)
            requires
                base >= 2,
        ;
    }
}

/// The eight bytes of a number stand for that number: read as digits to
/// the base 256, the most significant first, they give it back.
pub proof fn lemma_value_of_be_bytes(n: u64)
    ensures
        be_bytes(n).len() == 8,
        value(be_bytes(n).map_values(|b: u8| b as nat), 256) == n,
{
    lemma2_to64();
    vstd::arithmetic::power2::lemma2_to64_rest();
    let ds = be_bytes(n).map_values(|b: u8| b as nat);
    let d7 = ds.drop_last();
    let d6 = d7.drop_last();
    let d5 = d6.drop_last();
    let d4 = d5.drop_last();
    let d3 = d4.drop_last();
    let d2 = d3.drop_last();
    let d1 = d2.drop_last();
    let d0 = d1.drop_last();
    assert(value(d0, 256) == 0);
    assert(value(d1, 256) == n / 0x100_0000_0000_0000);
    assert(value(d2, 256) == n / 0x1_0000_0000_0000);
    assert(value(d3, 256) == n / 0x100_0000_0000);
    assert(value(d4, 256) == n / 0x1_0000_0000);
    assert(value(d5, 256) == n / 0x100_0000);
    assert(value(d6, 256) == n / 0x1_0000);
    assert(value(d7, 256) == n / 0x100);
    assert(ds.len() == 8);
    assert(be_bytes(n)[7] == ((n as nat / pow2(0)) % 256) as u8);
    assert(ds[7] == be_bytes(n)[7] as nat);
    assert(ds.last() == n % 256);
    assert(value(ds, 256) == value(d7, 256) * 256 + ds.last());
}

/// No character stands twice in an alphabet.
pub open spec fn distinct(alphabet: Seq<char>) -> bool {
    forall|i: int, j: int| 0 <= i < j < alphabet.len() ==> alphabet[i] != alphabet[j]
}

/// In none of the five alphabets of this module does a character stand
/// twice, and each has as many characters as its base.
pub proof fn lemma_alphabets_are_distinct()
    ensures
        DECIMAL_DIGITS@.len() == 10 && distinct(DECIMAL_DIGITS@),
        BASE2_DIGITS@.len() == 2 && distinct(BASE2_DIGITS@),
        ENCODE_BASE32_MAP@.len() == 32 && distinct(ENCODE_BASE32_MAP@),
        ENCODE_BASE36_MAP@.len() == 36 && distinct(ENCODE_BASE36_MAP@),
        ENCODE_BASE58_MAP@.len() == 58 && distinct(ENCODE_BASE58_MAP@),
{
    reveal_strlit("0123456789");
    reveal_strlit("01");
    reveal_strlit("ybndrfg8ejkmcpqxot1uwisza345h769");
    reveal_strlit("0123456789abcdefghijklmnopqrstuvwxyz");
    reveal_strlit("123456789abcdefghijkmnopqrstuvwxyzABCDEFGHJKLMNPQRSTUVWXYZ");
}

/// Over an alphabet in which no character stands twice, two numbers with
/// the same text are the same number, so a text can be read back.
pub proof fn lemma_encode_is_injective(a: nat, b: nat, alphabet: Seq<char>)
    requires
        alphabet.len() >= 2,
        distinct(alphabet),
        encode(a, alphabet) == encode(b, alphabet),
    ensures
        a == b,
{
    let base = alphabet.len();
    let (da, db) = (digits(a, base), digits(b, base));
    lemma_value_of_digits(a, base);
    lemma_value_of_digits(b, base);
    assert(da.len() == encode(a, alphabet).len());
    assert(db.len() == encode(b, alphabet).len());
    assert forall|k: int| 0 <= k < da.len() implies da[k] == db[k] by {
        assert(encode(a, alphabet)[k] == alphabet[da[k] as int]);
        assert(encode(b, alphabet)[k] == alphabet[db[k] as int]);
        if da[k] < db[k] {
            assert(alphabet[da[k] as int] != alphabet[db[k] as int]);
        } else if db[k] < da[k] {
            assert(alphabet[db[k] as int] != alphabet[da[k] as int]);
        }
    }
    assert(da =~= db);
}

} // verus!
