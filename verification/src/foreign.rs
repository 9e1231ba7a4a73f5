//! Contracts of the functions of other crates that the library calls. Verus
//! takes each on trust: none of them is proved here.

use crate::database::path::strings_view;
use vstd::prelude::*;
use vstd::string::StringSliceAdditionalSpecFns;
use vstd::utf8::valid_utf8;

verus! {

/// `std::str::from_utf8`: the bytes as a string slice if they are valid
/// UTF-8, and nothing otherwise. The slice it returns holds exactly the
/// bytes that were passed in.
#[verifier::external_body]
pub(crate) fn utf8_str(bytes: &[u8]) -> (text: Option<&str>)
    ensures
        text is Some <==> valid_utf8(bytes@),
        text is Some ==> text->Some_0.spec_bytes() == bytes@,
{
    std::str::from_utf8(bytes).ok()
}

/// The longest storage path that the rollup host accepts, in bytes.
pub const PATH_MAX_SIZE: usize = 242;

/// Whether a byte may stand in a step of a storage path: an ASCII letter or
/// digit, `.`, `_` or `-`.
pub open spec fn is_step_byte(byte: u8) -> bool {
    ||| 0x30 <= byte <= 0x39
    ||| 0x41 <= byte <= 0x5a
    ||| 0x61 <= byte <= 0x7a
    ||| byte == 0x2e
    ||| byte == 0x5f
    ||| byte == 0x2d
}

/// The bytes of `/readonly`, the part of the storage that kernels may not
/// address.
pub open spec fn readonly_root() -> Seq<u8> {
    seq![0x2fu8, 0x72, 0x65, 0x61, 0x64, 0x6f, 0x6e, 0x6c, 0x79]
}

/// The path encoding of the rollup host: a separator, then non-empty steps
/// of step bytes with one separator between them, at most `PATH_MAX_SIZE`
/// bytes in all, and neither `/readonly` nor anything under it.
pub open spec fn valid_storage_path(bytes: Seq<u8>) -> bool {
    &&& 0 < bytes.len() <= PATH_MAX_SIZE
    &&& bytes[0] == 0x2f
    &&& bytes.last() != 0x2f
    &&& forall|i: int|
        1 <= i < bytes.len() ==> if #[trigger] bytes[i] == 0x2f {
            bytes[i - 1] != 0x2f
        } else {
            is_step_byte(bytes[i])
        }
    &&& !(readonly_root().is_prefix_of(bytes) && (bytes.len() == 9 || bytes[9] == 0x2f))
}

/// `RefPath::try_from` of `tezos_smart_rollup_host`, asked only whether it
/// accepts: it does so exactly for the byte strings that follow the host's
/// path encoding.
#[verifier::external_body]
pub(crate) fn is_storage_path(bytes: &[u8]) -> (accepted: bool)
    ensures
        accepted == valid_storage_path(bytes@),
{
    tezos_smart_rollup_host::path::RefPath::try_from(bytes).is_ok()
}

/// The lower-case hexadecimal digit for a number below 16.
pub open spec fn hex_digit(nibble: int) -> char {
    if nibble < 10 {
        (nibble + 0x30) as char
    } else {
        (nibble + 0x57) as char
    }
}

/// The bytes written out in hexadecimal, two lower-case digits for each, the
/// high half first.
pub open spec fn hex_text(data: Seq<u8>) -> Seq<char> {
    Seq::new(
        2 * data.len(),
        |i: int|
            if i % 2 == 0 {
                hex_digit(data[i / 2] as int / 16)
            } else {
                hex_digit(data[i / 2] as int % 16)
            },
    )
}

/// The number that a hexadecimal digit, in either case, stands for.
pub open spec fn hex_value(digit: u8) -> Option<int> {
    if 0x30 <= digit <= 0x39 {
        Some(digit - 0x30)
    } else if 0x41 <= digit <= 0x46 {
        Some(digit - 0x41 + 10)
    } else if 0x61 <= digit <= 0x66 {
        Some(digit - 0x61 + 10)
    } else {
        None
    }
}

/// The bytes that a text of hexadecimal digits spells: one for every two
/// digits, provided that the digits come in pairs and each is one.
pub open spec fn hex_bytes(text: Seq<u8>) -> Option<Seq<u8>> {
    if text.len() % 2 == 0 && forall|i: int| 0 <= i < text.len() ==> hex_value(#[trigger] text[i]) is Some {
        Some(
            Seq::new(
                text.len() / 2,
                |i: int| (hex_value(text[2 * i])->Some_0 * 16 + hex_value(text[2 * i + 1])->Some_0) as u8,
            ),
        )
    } else {
        None
    }
}

/// `hex::encode`: every byte as two lower-case hexadecimal digits.
#[verifier::external_body]
pub(crate) fn hex_encode(data: &[u8]) -> (text: String)
    ensures
        text@ == hex_text(data@),
{
    hex::encode(data)
}

/// `hex::decode`: the bytes that the digits spell, and nothing if the text
/// has an odd number of bytes or holds one that is no hexadecimal digit.
#[verifier::external_body]
pub(crate) fn hex_decode(text: &str) -> (data: Option<Vec<u8>>)
    ensures
        match data {
            Some(bytes) => hex_bytes(text.spec_bytes()) == Some(bytes@),
            None => hex_bytes(text.spec_bytes()) is None,
        },
{
    hex::decode(text).ok()
}

/// What `serde_json::to_string` makes of a list of strings: the JSON text of
/// the array, or nothing where it reports an error.
pub uninterp spec fn json_of_strings(items: Seq<Seq<char>>) -> Option<Seq<char>>;

/// `serde_json::to_string` on a list of strings.
#[verifier::external_body]
pub(crate) fn json_string_list(items: &Vec<String>) -> (text: Option<String>)
    ensures
        match text {
            Some(json) => json_of_strings(strings_view(items@)) == Some(json@),
            None => json_of_strings(strings_view(items@)) is None,
        },
{
    serde_json::to_string(items).ok()
}

/// What the entries of a list of named codes are, as plain values.
pub open spec fn codes_view(list: Seq<(String, u32)>) -> Seq<(Seq<char>, u32)> {
    list.map_values(|entry: (String, u32)| (entry.0@, entry.1))
}

/// What `bincode::serialize` makes of a list of named codes: its bytes, or
/// nothing where it reports an error.
pub uninterp spec fn bincode_codes_bytes(list: Seq<(Seq<char>, u32)>) -> Option<Seq<u8>>;

/// What `bincode::deserialize` reads from bytes as a list of named codes,
/// or nothing where it reports an error.
pub uninterp spec fn bincode_codes_parse(bytes: Seq<u8>) -> Option<Seq<(Seq<char>, u32)>>;

/// `bincode::serialize` on a list of named codes.
#[verifier::external_body]
pub(crate) fn bincode_encode_codes(list: &Vec<(String, u32)>) -> (bytes: Option<Vec<u8>>)
    ensures
        match bytes {
            Some(encoded) => bincode_codes_bytes(codes_view(list@)) == Some(encoded@),
            None => bincode_codes_bytes(codes_view(list@)) is None,
        },
{
    bincode::serialize(list).ok()
}

/// `bincode::deserialize` to a list of named codes.
#[verifier::external_body]
pub(crate) fn bincode_decode_codes(bytes: &[u8]) -> (list: Option<Vec<(String, u32)>>)
    ensures
        match list {
            Some(decoded) => bincode_codes_parse(bytes@) == Some(codes_view(decoded@)),
            None => bincode_codes_parse(bytes@) is None,
        },
{
    bincode::deserialize(bytes).ok()
}

} // verus!
