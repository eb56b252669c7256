use vstd::prelude::*;

verus! {

/// The characters that a ULID is written in: digits and capital letters without I, L, O and U.
pub open spec fn is_ulid_character(c: char) -> bool {
    ||| '0' <= c <= '9'
    ||| 'A' <= c <= 'Z' && c != 'I' && c != 'L' && c != 'O' && c != 'U'
}

/// Whether a text has the form of a ULID.
pub open spec fn is_ulid(text: Seq<char>) -> bool {
    text.len() == 26 && forall|i: int| 0 <= i < text.len() ==> is_ulid_character(#[trigger] text[i])
}

/// `ulid::Ulid::new` and its text form: 26 characters of Crockford's alphabet. They depend on
/// the clock and on chance, so nothing else is claimed of them.
#[verifier::external_body]
pub(crate) fn new_ulid() -> (id: String)
    ensures
        is_ulid(id@),
{
    ulid::Ulid::new().to_string()
}

/// The characters that a file id is made of: letters, digits, `_` and `-`.
pub open spec fn is_file_id_character(c: char) -> bool {
    'a' <= c <= 'z' || 'A' <= c <= 'Z' || '0' <= c <= '9' || c == '_' || c == '-'
}

/// Whether a text is an id of a given length.
pub open spec fn is_file_id(text: Seq<char>, size: nat) -> bool {
    text.len() == size && forall|i: int|
        0 <= i < text.len() ==> is_file_id_character(#[trigger] text[i])
}

/// `nanoid::format` over its safe alphabet and its default source of chance: an id of `size`
/// characters. It does not return for no characters at all, and computes eight times the size.
/// The characters depend on chance, so nothing else is claimed of them.
#[verifier::external_body]
pub(crate) fn new_nanoid(size: usize) -> (id: String)
    requires
        1 <= size <= usize::MAX / 8,
    ensures
        is_file_id(id@, size as nat),
{
    nanoid::format(nanoid::rngs::default, &nanoid::alphabet::SAFE, size)
}

} // verus!
