//! Whom a request is made by, and what it gets from the defaults.

use crate::access::requesting_user;
use crate::credentials::{basic_credentials, before_colon, CredentialsOf};
use crate::defaults::{default_user, given, DefaultsView};
use crate::fsutil::{new_owner, unrestricted, user_refusal};
use crate::host::{Account, ErrorKind, FsErrorOf, FsErrorView, LookupOf, LookupView};
use crate::init::{init_status, initialized, told_variables};
use crate::outside::base64_bytes;
use crate::process::process_user;
use crate::text::header_content;
use vstd::prelude::*;
use vstd::utf8::*;

verus! {

/// The name of a user is what stands before the first colon; where there is none, all of it is the name.
pub proof fn law_name_ends_at_the_colon(name: Seq<char>, rest: Seq<char>)
    requires
        !name.contains(':'),
    ensures
        before_colon(name) == name,
        before_colon(name + seq![':'] + rest) == name,
    decreases name.len(),
{
    let whole = name + seq![':'] + rest;
    if name.len() == 0 {
        assert(before_colon(whole) =~= name);
        assert(before_colon(name) =~= name);
    } else {
        let shorter = name.skip(1);
        assert(name[0] != ':') by {
            assert(name.contains(name[0]));
        }
        assert(!shorter.contains(':')) by {
            if shorter.contains(':') {
                let i = choose|i: int| 0 <= i < shorter.len() && shorter[i] == ':';
                assert(name[i + 1] == ':');
            }
        }
        law_name_ends_at_the_colon(shorter, rest);
        assert(whole.skip(1) =~= shorter + seq![':'] + rest);
        assert(seq![name[0]] + shorter =~= name);
    }
}

/// Basic credentials name a user: the header holds the word and, in base64, the name, a colon and a
/// password, which does not matter.
pub proof fn law_basic_credentials_name_a_user(encoded: Seq<u8>, name: Seq<char>, password: Seq<char>)
    requires
        header_content(encoded) is Some,
        !name.contains(':'),
        base64_bytes(encoded) == Some(encode_utf8(name + seq![':'] + password)),
    ensures
        basic_credentials(Some(encode_utf8("Basic "@) + encoded)) == CredentialsOf::User(name),
{
    let scheme = encode_utf8("Basic "@);
    let value = scheme + encoded;
    broadcast use {encode_utf8_valid_utf8, encode_utf8_decode_utf8};

    reveal_strlit("Basic ");
    is_ascii_chars_encode_utf8("Basic "@);
    law_name_ends_at_the_colon(name, password);
    assert(value.take(6) =~= scheme);
    assert(scheme =~= seq![66u8, 97, 115, 105, 99, 32]);
    assert(value.skip(6) =~= encoded);
    assert forall|i: int| 0 <= i < value.len() implies crate::text::is_visible(#[trigger] value[i]) by {
        if i >= 6 {
            assert(value[i] == encoded[i - 6]);
        }
    }
}

/// What is wrong with a header that names no user: it is no text; it is of another scheme; what follows is
/// no base64; or that does not hold UTF-8. Without a header there is nothing wrong.
pub proof fn law_other_credentials_name_nobody(value: Seq<u8>)
    ensures
        basic_credentials(None) is Absent,
        header_content(value) is None ==> basic_credentials(Some(value)) is NotText,
        ({
            let scheme = encode_utf8("Basic "@);
            let basic = value.len() >= 6 && value.take(6) == scheme;
            &&& header_content(value) is Some && !basic ==> basic_credentials(Some(value)) is NotBasic
            &&& header_content(value) is Some && basic && base64_bytes(value.skip(6)) is None ==> basic_credentials(
                Some(value),
            ) is NotBase64
            &&& header_content(value) is Some && basic ==> (base64_bytes(value.skip(6)) matches Some(bytes)
                ==> !valid_utf8(bytes) ==> basic_credentials(Some(value)) is NotUtf8)
        }),
{
    reveal_strlit("Basic ");
    is_ascii_chars_encode_utf8("Basic "@);
    assert(encode_utf8("Basic "@) =~= seq![66u8, 97, 115, 105, 99, 32]);
}

/// A filesystem request is made by the user that its header names, and by `root` where it has none or the
/// name is empty. A header that names nobody is not acceptable.
pub proof fn law_requests_are_made_by_the_named_user(credentials: CredentialsOf<Seq<char>>)
    ensures
        ({
            let user = requesting_user(credentials);
            let refused = |message: Seq<char>|
                Err::<Seq<char>, FsErrorView>(FsErrorOf { kind: ErrorKind::InvalidInput, message });
            &&& credentials is Absent ==> user == Ok::<Seq<char>, FsErrorView>("root"@)
            &&& credentials matches CredentialsOf::User(name) ==> user == Ok::<Seq<char>, FsErrorView>(
                if name.len() == 0 {
                    "root"@
                } else {
                    name
                },
            )
            &&& credentials is NotText ==> user == refused("invalid Authorization header"@)
            &&& credentials is NotBasic ==> user == refused("Authorization must use Basic"@)
            &&& credentials is NotBase64 ==> user == refused("invalid Basic credentials"@)
            &&& credentials is NotUtf8 ==> user == refused("invalid Basic credentials"@)
        }),
{
}

/// A process runs as the user that its header names, and as the default user where it has none or the name
/// is empty. A header that names nobody is refused.
pub proof fn law_processes_run_as_the_named_user(credentials: CredentialsOf<Seq<char>>, fallback: Seq<char>)
    ensures
        ({
            let user = process_user(credentials, fallback);
            let refused = |message: Seq<char>| Err::<Seq<char>, Seq<char>>(message);
            &&& credentials is Absent ==> user == Ok::<Seq<char>, Seq<char>>(fallback)
            &&& credentials matches CredentialsOf::User(name) ==> user == Ok::<Seq<char>, Seq<char>>(
                if name.len() == 0 {
                    fallback
                } else {
                    name
                },
            )
            &&& credentials is NotText ==> user == refused("Authorization header is not valid UTF-8"@)
            &&& credentials is NotBasic ==> user == refused("Authorization must use Basic authentication"@)
            &&& credentials is NotBase64 ==> user == refused("Authorization credentials are not valid base64"@)
            &&& credentials is NotUtf8 ==> user == refused("Authorization credentials are not valid UTF-8"@)
        }),
{
}

/// The default user is the one that was set, and `root` where none was set or the name is empty. A default
/// that is empty counts as none.
pub proof fn law_default_user_is_the_one_set(user: Option<Seq<char>>, name: Seq<char>)
    requires
        name.len() > 0,
    ensures
        default_user(Some(name)) == name,
        default_user(None) == "root"@,
        default_user(Some(Seq::empty())) == "root"@,
        given(Some(name)) == Some(name),
        given(None) is None,
        given(Some(Seq::empty())) is None,
        given(user) matches Some(content) ==> user == Some(content) && content.len() > 0,
{
}

/// Only `root` and the empty name need no account. Every other user has to have one: who has none, or whose
/// account cannot be searched, is refused.
pub proof fn law_users_have_to_exist(username: Seq<char>, lookup: LookupView)
    ensures
        unrestricted(username) <==> username == "root"@ || username == Seq::<char>::empty(),
        username == "root"@ || username.len() == 0 ==> user_refusal(username, lookup) is None,
        username != "root"@ && username.len() > 0 ==> match lookup {
            LookupOf::Found(_) => user_refusal(username, lookup) is None,
            LookupOf::Missing => user_refusal(username, lookup) == Some(
                FsErrorOf { kind: ErrorKind::NotFound, message: "user "@ + username + " not found"@ },
            ),
            LookupOf::Failed(message) => user_refusal(username, lookup) == Some(
                FsErrorOf { kind: ErrorKind::Other, message },
            ),
        },
{
    assert(username.len() == 0 <==> username =~= Seq::<char>::empty());
}

/// What is made for a user is given to the account that was found for the user; for `root` and the empty
/// name it stays as it is.
pub proof fn law_new_files_belong_to_their_user(username: Seq<char>, account: Account, message: Seq<char>)
    ensures
        ({
            let free = username == "root"@ || username.len() == 0;
            &&& free ==> new_owner(username, LookupOf::Found(account)) == Ok::<Option<Account>, FsErrorView>(None)
            &&& !free ==> new_owner(username, LookupOf::Found(account)) == Ok::<Option<Account>, FsErrorView>(
                Some(account),
            )
            &&& !free ==> new_owner(username, LookupOf::Missing) == Err::<Option<Account>, FsErrorView>(
                FsErrorOf { kind: ErrorKind::NotFound, message: "user not found"@ },
            )
            &&& !free ==> new_owner(username, LookupOf::Failed(message)) == Err::<Option<Account>, FsErrorView>(
                FsErrorOf { kind: ErrorKind::Other, message },
            )
        }),
{
}

/// Setting things up sets the variables that it brings and keeps the others, and sets the user and the
/// working directory where it brings them.
pub proof fn law_init_sets_what_it_brings(
    before: DefaultsView,
    env_vars: Map<Seq<char>, Seq<char>>,
    user: Option<Seq<char>>,
    workdir: Option<Seq<char>>,
    name: Seq<char>,
)
    ensures
        ({
            let after = initialized(before, env_vars, user, workdir);
            &&& after.env_vars.contains_key(name) <==> before.env_vars.contains_key(name) || env_vars.contains_key(name)
            &&& env_vars.contains_key(name) ==> after.env_vars[name] == env_vars[name]
            &&& before.env_vars.contains_key(name) && !env_vars.contains_key(name) ==> after.env_vars[name]
                == before.env_vars[name]
            &&& user is Some && user->0.len() > 0 ==> after.user == user
            &&& user is None || user->0.len() == 0 ==> after.user == before.user
            &&& workdir is Some && workdir->0.len() > 0 ==> after.workdir == workdir
            &&& workdir is None || workdir->0.len() == 0 ==> after.workdir == before.workdir
        }),
{
}

/// Setting things up is answered without content. What is told of the variables are all that were set up,
/// by whichever request.
pub proof fn law_variables_are_told_as_they_were_set(
    before: DefaultsView,
    env_vars: Map<Seq<char>, Seq<char>>,
    user: Option<Seq<char>>,
    workdir: Option<Seq<char>>,
    name: Seq<char>,
)
    ensures
        init_status() == 204,
        ({
            let earlier = told_variables(before);
            let told = told_variables(initialized(before, env_vars, user, workdir));
            &&& told.contains_key(name) <==> earlier.contains_key(name) || env_vars.contains_key(name)
            &&& env_vars.contains_key(name) ==> told[name] == env_vars[name]
            &&& earlier.contains_key(name) && !env_vars.contains_key(name) ==> told[name] == earlier[name]
        }),
{
}

} // verus!
