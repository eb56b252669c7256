use vstd::prelude::*;
use vstd::utf8::encode_utf8;

verus! {

/// Whether a byte cannot stand for itself in a component of a URL.
pub open spec fn must_escape(byte: u8) -> bool {
    ||| byte <= 0x20 || byte >= 0x7f
    ||| byte == '"' as u8 || byte == '#' as u8 || byte == '<' as u8 || byte == '>' as u8
    ||| byte == '?' as u8 || byte == '^' as u8 || byte == '`' as u8 || byte == '{' as u8
    ||| byte == '}' as u8 || byte == '/' as u8 || byte == ':' as u8 || byte == ';' as u8
    ||| byte == '=' as u8 || byte == '@' as u8 || byte == '[' as u8 || byte == '\\' as u8
    ||| byte == ']' as u8 || byte == '|' as u8 || byte == '$' as u8 || byte == '%' as u8
    ||| byte == '&' as u8 || byte == '+' as u8 || byte == ',' as u8
}

/// The hexadecimal digit that stands for a number below sixteen, in capitals.
pub open spec fn capital_digit(number: int) -> char {
    if number < 10 {
        (0x30 + number) as char
    } else {
        (0x41 + number - 10) as char
    }
}

/// A byte of a component.
pub open spec fn escaped_byte(byte: u8) -> Seq<char> {
    if must_escape(byte) {
        seq!['%', capital_digit(byte as int / 16), capital_digit(byte as int % 16)]
    } else {
        seq![byte as char]
    }
}

/// The bytes of a component.
pub open spec fn escaped_bytes(bytes: Seq<u8>) -> Seq<char>
    decreases bytes.len(),
{
    if bytes.len() == 0 {
        Seq::empty()
    } else {
        escaped_bytes(bytes.drop_last()) + escaped_byte(bytes.last())
    }
}

/// `url_escape::encode_component`: the UTF-8 bytes of the text, those that cannot stand for
/// themselves written as a percent sign and two capital hexadecimal digits.
#[verifier::external_body]
pub(crate) fn encode_component(text: &str) -> (result: String)
    ensures
        result@ == escaped_bytes(encode_utf8(text@)),
{
    url_escape::encode_component(text).into_owned()
}

} // verus!
