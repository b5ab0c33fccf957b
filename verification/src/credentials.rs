//! The user that an `Authorization` header names by Basic credentials.

use crate::outside::{base64_bytes, base64_decode};
use crate::text::{all_visible, has_prefix, header_bytes, is_all_visible};
use vstd::prelude::*;
use vstd::slice::*;
use vstd::std_specs::iter::IteratorSpec;
use vstd::string::*;
use vstd::utf8::*;

verus! {

/// What an `Authorization` header says of the user: there is no header; it cannot be read as text;
/// it uses another scheme than Basic; the credentials are no base64; what they encode is no UTF-8;
/// or they name a user, perhaps with the empty name.
#[verifier::ext_equal]
#[derive(Debug, PartialEq, Eq)]
pub enum CredentialsOf<T> {
    Absent,
    NotText,
    NotBasic,
    NotBase64,
    NotUtf8,
    User(T),
}

pub type Credentials = CredentialsOf<String>;

impl View for CredentialsOf<String> {
    type V = CredentialsOf<Seq<char>>;

    open spec fn view(&self) -> CredentialsOf<Seq<char>> {
        match self {
            CredentialsOf::Absent => CredentialsOf::Absent,
            CredentialsOf::NotText => CredentialsOf::NotText,
            CredentialsOf::NotBasic => CredentialsOf::NotBasic,
            CredentialsOf::NotBase64 => CredentialsOf::NotBase64,
            CredentialsOf::NotUtf8 => CredentialsOf::NotUtf8,
            CredentialsOf::User(name) => CredentialsOf::User(name@),
        }
    }
}

/// What stands before the first colon, or all of the text where it holds none.
pub open spec fn before_colon(text: Seq<char>) -> Seq<char>
    decreases text.len(),
{
    if text.len() == 0 || text[0] == ':' {
        Seq::empty()
    } else {
        seq![text[0]] + before_colon(text.skip(1))
    }
}

/// The name of the Basic scheme and the space behind it.
pub open spec fn basic_scheme() -> Seq<u8> {
    seq![66, 97, 115, 105, 99, 32]
}

/// What a header says of the user, given what its credentials decode to.
pub open spec fn decoded_credentials(decoded: Option<Seq<u8>>) -> CredentialsOf<Seq<char>> {
    match decoded {
        None => CredentialsOf::NotBase64,
        Some(bytes) => if valid_utf8(bytes) {
            CredentialsOf::User(before_colon(decode_utf8(bytes)))
        } else {
            CredentialsOf::NotUtf8
        },
    }
}

/// What a header says of the user.
pub open spec fn basic_credentials(header: Option<Seq<u8>>) -> CredentialsOf<Seq<char>> {
    match header {
        None => CredentialsOf::Absent,
        Some(value) => if !all_visible(value) {
            CredentialsOf::NotText
        } else if value.len() < 6 || value.take(6) != basic_scheme() {
            CredentialsOf::NotBasic
        } else {
            decoded_credentials(base64_bytes(value.skip(6)))
        },
    }
}

/// Takes the text before the first colon.
fn take_before_colon(text: &str) -> (name: String)
    ensures
        name@ == before_colon(text@),
{
    let mut chars = text.chars();
    let mut place: usize = 0;
    let ghost whole = text@;
    let total: usize = text.unicode_len();
    proof {
        broadcast use group_string_axioms;
        assert(whole.skip(0) =~= whole);
        assert(whole.take(0) + before_colon(whole.skip(0)) =~= before_colon(whole));
    }
    loop
        invariant_except_break
            place <= total,
            total == whole.len(),
            chars.remaining() == whole.skip(place as int),
            before_colon(whole) == whole.take(place as int) + before_colon(whole.skip(place as int)),
        ensures
            place <= total,
            before_colon(whole) == whole.take(place as int),
        decreases total - place,
    {
        broadcast use group_string_axioms;

        let next = chars.next();
        let ghost rest = whole.skip(place as int);
        match next {
            None => {
                assert(rest.len() == 0);
                assert(before_colon(whole) =~= whole.take(place as int));
                break;
            },
            Some(c) => {
                assert(c == rest[0]);
                if c == ':' {
                    assert(before_colon(whole) =~= whole.take(place as int));
                    break;
                }
                assert(rest.drop_first() =~= whole.skip(place + 1));
                assert(rest.skip(1) =~= whole.skip(place + 1));
                assert(whole.take(place + 1) =~= whole.take(place as int) + seq![c]);
                assert(before_colon(whole) =~= whole.take(place + 1) + before_colon(whole.skip(place + 1)));
                place += 1;
            },
        }
    }
    assert(whole.take(place as int) =~= whole.subrange(0, place as int));
    text.substring_char(0, place).to_owned()
}

/// Reads the user out of what the credentials of a header decode to.
pub fn read_decoded(decoded: Option<Vec<u8>>) -> (credentials: Credentials)
    ensures
        credentials@ == decoded_credentials(match decoded {
            Some(bytes) => Some(bytes@),
            None => None,
        }),
{
    match decoded {
        None => CredentialsOf::NotBase64,
        Some(bytes) => match String::from_utf8(bytes) {
            Ok(text) => CredentialsOf::User(take_before_colon(text.as_str())),
            Err(_) => CredentialsOf::NotUtf8,
        },
    }
}

/// Reads the value of an `Authorization` header.
pub fn read_credentials(header: Option<&[u8]>) -> (credentials: Credentials)
    ensures
        credentials@ == basic_credentials(header_bytes(header)),
{
    let value = match header {
        None => {
            return CredentialsOf::Absent;
        },
        Some(value) => value,
    };
    if !is_all_visible(value) {
        return CredentialsOf::NotText;
    }
    let scheme: [u8; 6] = [66, 97, 115, 105, 99, 32];
    assert(scheme@ =~= basic_scheme());
    if !has_prefix(value, &scheme) {
        return CredentialsOf::NotBasic;
    }
    let encoded = slice_subrange(value, 6, value.len());
    assert(encoded@ =~= value@.skip(6));
    match base64_decode(encoded) {
        Ok(bytes) => read_decoded(Some(bytes)),
        Err(_) => read_decoded(None),
    }
}

} // verus!
