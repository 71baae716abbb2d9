//! Text forms: identifiers, decimal numbers, and SHA-256 hex digests.
use vstd::prelude::*;

verus! {

/// The lower-case hexadecimal digit of `d` (< 16).
pub open spec fn hex_char(d: nat) -> char {
    if d < 10 {
        ((d + 48) as u32) as char
    } else {
        ((d + 87) as u32) as char
    }
}

/// The decimal digit of `d` (< 10).
pub open spec fn digit_char(d: nat) -> char {
    ((d + 48) as u32) as char
}

/// `16^k`.
pub open spec fn pow16(k: nat) -> nat
    decreases k,
{
    if k == 0 {
        1
    } else {
        16 * pow16((k - 1) as nat)
    }
}

/// The 32 lower-case hex digits of a 128-bit value, most significant first.
pub open spec fn hex32(v: u128) -> Seq<char> {
    Seq::new(32, |i: int| hex_char(((v as nat) / pow16((31 - i) as nat)) % 16))
}

/// The hyphenated lower-case text of a UUID (8-4-4-4-12 hex digits), as
/// `uuid::Uuid` displays it.
pub open spec fn uuid_hyphenated(v: u128) -> Seq<char> {
    let h = hex32(v);
    h.subrange(0, 8) + seq!['-'] + h.subrange(8, 12) + seq!['-'] + h.subrange(12, 16) + seq!['-']
        + h.subrange(16, 20) + seq!['-'] + h.subrange(20, 32)
}

/// The text of an identifier, from `uuid::Uuid::from_u128(id).to_string()`,
/// which `uuid` writes as the hyphenated lower-case hex of the id's
/// big-endian bytes.
#[verifier::external_body]
pub(crate) fn uuid_text(id: u128) -> (r: String)
    ensures
        r@ == uuid_hyphenated(id),
{
    uuid::Uuid::from_u128(id).to_string()
}

/// The decimal text of `n`, without leading zeros.
pub open spec fn decimal(n: nat) -> Seq<char>
    decreases n,
{
    if n < 10 {
        seq![digit_char(n)]
    } else {
        decimal(n / 10).push(digit_char(n % 10))
    }
}

/// Appends one character, as `String::push`.
#[verifier::external_body]
pub(crate) fn push_char(s: &mut String, c: char)
    ensures
        final(s)@ == old(s)@.push(c),
{
    s.push(c);
}

/// A string holding the given characters.
pub fn string_from_chars(chars: &Vec<char>) -> (r: String)
    ensures
        r@ == chars@,
{
    let mut out = String::new();
    let mut i: usize = 0;
    while i < chars.len()
        invariant
            i <= chars@.len(),
            out@ == chars@.subrange(0, i as int),
        decreases chars@.len() - i,
    {
        push_char(&mut out, chars[i]);
        proof {
            assert(chars@.subrange(0, i + 1) =~= chars@.subrange(0, i as int).push(chars@[i as int]));
        }
        i = i + 1;
    }
    proof {
        assert(chars@.subrange(0, chars@.len() as int) =~= chars@);
    }
    out
}

proof fn lemma_decimal_len(n: nat)
    ensures
        decimal(n).len() >= 1,
    decreases n,
{
    if n >= 10 {
        lemma_decimal_len(n / 10);
    }
}

/// The decimal text of `n`, as `u64::to_string`.
pub fn decimal_text(n: u64) -> (r: String)
    ensures
        r@ == decimal(n as nat),
{
    let mut digits: Vec<char> = Vec::new();
    let mut rest = n;
    let ghost mut tail: Seq<char> = Seq::empty();
    proof {
        assert(decimal(n as nat) + tail =~= decimal(n as nat));
    }
    loop
        invariant_except_break
            decimal(n as nat) == decimal(rest as nat) + tail,
            digits@ == tail.reverse(),
        ensures
            decimal(n as nat) == tail,
            digits@ == tail.reverse(),
        decreases rest,
    {
        let d = (rest % 10) as u8;
        let c = (d + 48) as char;
        proof {
            assert(c == digit_char((rest % 10) as nat));
        }
        if rest < 10 {
            digits.push(c);
            proof {
                assert(decimal(rest as nat) =~= seq![c]);
                tail = seq![c] + tail;
                assert(digits@ =~= tail.reverse());
            }
            break;
        }
        digits.push(c);
        proof {
            assert(decimal(rest as nat) == decimal((rest / 10) as nat).push(c));
            assert(decimal((rest / 10) as nat).push(c) + tail =~= decimal((rest / 10) as nat) + (
            seq![c] + tail));
            tail = seq![c] + tail;
            assert(digits@ =~= tail.reverse());
        }
        rest = rest / 10;
    }
    let mut ordered: Vec<char> = Vec::new();
    let mut i: usize = digits.len();
    while i > 0
        invariant
            i <= digits@.len(),
            digits@ == tail.reverse(),
            ordered@ == tail.subrange(0, (digits@.len() - i) as int),
            decimal(n as nat) == tail,
        decreases i,
    {
        i = i - 1;
        ordered.push(digits[i]);
        proof {
            assert(tail.subrange(0, (digits@.len() - i) as int) =~= tail.subrange(
                0,
                (digits@.len() - i - 1) as int,
            ).push(tail[(digits@.len() - i - 1) as int]));
        }
    }
    proof {
        assert(tail.subrange(0, tail.len() as int) =~= tail);
    }
    string_from_chars(&ordered)
}

/// The SHA-256 digest of a byte string, as computed by the `sha2` crate.
pub uninterp spec fn sha256_of(data: Seq<u8>) -> Seq<u8>;

/// The SHA-256 digest of `data`, from `sha2::Sha256::digest`; a digest is
/// always 32 bytes.
#[verifier::external_body]
pub(crate) fn sha256_digest(data: &[u8]) -> (r: Vec<u8>)
    ensures
        r@ == sha256_of(data@),
        r@.len() == 32,
{
    <sha2::Sha256 as sha2::Digest>::digest(data).to_vec()
}

/// The lower-case hex text of a byte string, two digits per byte.
pub open spec fn hex_lower(bytes: Seq<u8>) -> Seq<char>
    decreases bytes.len(),
{
    if bytes.len() == 0 {
        Seq::empty()
    } else {
        hex_lower(bytes.drop_last()) + seq![
            hex_char((bytes.last() / 16) as nat),
            hex_char((bytes.last() % 16) as nat),
        ]
    }
}

fn hex_digit(d: u8) -> (r: char)
    requires
        d < 16,
    ensures
        r == hex_char(d as nat),
{
    if d < 10 {
        (d + 48) as char
    } else {
        (d + 87) as char
    }
}

/// The lower-case hex text of `bytes`.
pub fn hex_text(bytes: &Vec<u8>) -> (r: String)
    ensures
        r@ == hex_lower(bytes@),
{
    let mut chars: Vec<char> = Vec::new();
    let mut i: usize = 0;
    while i < bytes.len()
        invariant
            i <= bytes@.len(),
            chars@ == hex_lower(bytes@.subrange(0, i as int)),
        decreases bytes@.len() - i,
    {
        let b = bytes[i];
        chars.push(hex_digit(b / 16));
        chars.push(hex_digit(b % 16));
        proof {
            let pre = bytes@.subrange(0, i + 1);
            assert(pre.drop_last() =~= bytes@.subrange(0, i as int));
            assert(pre.last() == b);
        }
        i = i + 1;
    }
    proof {
        assert(bytes@.subrange(0, bytes@.len() as int) =~= bytes@);
    }
    string_from_chars(&chars)
}

/// The lower-case hex SHA-256 of `data`.
pub fn sha256_hex(data: &Vec<u8>) -> (r: String)
    ensures
        r@ == hex_lower(sha256_of(data@)),
{
    let digest = sha256_digest(data.as_slice());
    hex_text(&digest)
}

} // verus!

verus! {

/// The lower-case hex SHA-256 of the UTF-8 bytes of a text.
pub fn sha256_hex_of_text(text: &str) -> (r: String)
    ensures
        r@ == hex_lower(sha256_of(vstd::utf8::encode_utf8(text@))),
{
    let digest = sha256_digest(text.as_bytes());
    hex_text(&digest)
}

} // verus!
