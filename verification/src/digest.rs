use vstd::prelude::*;

verus! {

/// The SHA-256 digest of some bytes.
pub uninterp spec fn sha256_of(bytes: Seq<u8>) -> Seq<u8>;

/// `sha2::Sha256::digest`: the digest, a function of the bytes alone, 32 bytes long.
#[verifier::external_body]
pub(crate) fn sha256(bytes: &Vec<u8>) -> (digest: Vec<u8>)
    ensures
        digest@ == sha256_of(bytes@),
        digest@.len() == 32,
{
    <sha2::Sha256 as sha2::Digest>::digest(bytes).to_vec()
}

/// The hexadecimal digit that stands for a number below sixteen.
pub open spec fn small_digit(number: int) -> char {
    if number < 10 {
        (0x30 + number) as char
    } else {
        (0x61 + number - 10) as char
    }
}

/// Bytes in hexadecimal, two digits each.
pub open spec fn hex_of(bytes: Seq<u8>) -> Seq<char>
    decreases bytes.len(),
{
    if bytes.len() == 0 {
        Seq::empty()
    } else {
        hex_of(bytes.drop_last()).push(small_digit(bytes.last() as int / 16)).push(
            small_digit(bytes.last() as int % 16),
        )
    }
}

fn digit(number: u8) -> (result: char)
    requires
        number < 16,
    ensures
        result == small_digit(number as int),
{
    if number < 10 {
        (0x30 + number) as char
    } else {
        (0x61 + (number - 10)) as char
    }
}

/// Bytes in hexadecimal.
pub fn hex(bytes: &Vec<u8>) -> (result: String)
    ensures
        result@ == hex_of(bytes@),
{
    let mut result = String::new();
    for i in 0..bytes.len()
        invariant
            result@ == hex_of(bytes@.take(i as int)),
    {
        assert(bytes@.take(i + 1).drop_last() =~= bytes@.take(i as int));
        result.push(digit(bytes[i] / 16));
        result.push(digit(bytes[i] % 16));
    }
    assert(bytes@.take(bytes@.len() as int) =~= bytes@);
    result
}

/// Two different runs of bytes of the same length have different hexadecimal forms.
pub proof fn law_hex_tells_apart(a: Seq<u8>, b: Seq<u8>)
    ensures
        hex_of(a).len() == 2 * a.len(),
        hex_of(a) == hex_of(b) ==> a == b,
    decreases a.len(),
{
    if a.len() == 0 {
        if b.len() != 0 {
            assert(hex_of(b).len() > 0);
        } else {
            assert(a =~= b);
        }
    } else if b.len() != 0 {
        law_hex_tells_apart(a.drop_last(), b.drop_last());
        let x = hex_of(a);
        let y = hex_of(b);
        if x == y {
            assert(x.drop_last().drop_last() =~= hex_of(a.drop_last()));
            assert(y.drop_last().drop_last() =~= hex_of(b.drop_last()));
            assert(x.last() == y.last());
            assert(x.drop_last().last() == y.drop_last().last());
            assert(a.last() as int % 16 == b.last() as int % 16);
            assert(a.last() as int / 16 == b.last() as int / 16);
            assert(a =~= a.drop_last().push(a.last()));
            assert(b =~= b.drop_last().push(b.last()));
        }
    } else {
        law_hex_tells_apart(a.drop_last(), b);
        assert(hex_of(b).len() == 0);
    }
}

/// Each byte is written with two digits, the one that counts sixteens first, and letters are
/// small.
pub proof fn law_bytes_are_written_in_sixteens(bytes: &Vec<u8>, result: String, i: int)
    requires
        call_ensures(hex, (bytes,), result),
        0 <= i < bytes@.len(),
    ensures
        result@.len() == 2 * bytes@.len(),
        result@[2 * i] == "0123456789abcdef"@[bytes@[i] as int / 16],
        result@[2 * i + 1] == "0123456789abcdef"@[bytes@[i] as int % 16],
{
    lemma_hex_digits(bytes@, i);
    reveal_strlit("0123456789abcdef");
}

proof fn lemma_hex_digits(bytes: Seq<u8>, i: int)
    requires
        0 <= i < bytes.len(),
    ensures
        hex_of(bytes).len() == 2 * bytes.len(),
        hex_of(bytes)[2 * i] == small_digit(bytes[i] as int / 16),
        hex_of(bytes)[2 * i + 1] == small_digit(bytes[i] as int % 16),
    decreases bytes.len(),
{
    law_hex_tells_apart(bytes, bytes);
    law_hex_tells_apart(bytes.drop_last(), bytes.drop_last());
    if i < bytes.len() - 1 {
        lemma_hex_digits(bytes.drop_last(), i);
    }
}

} // verus!
