//! Matrix identifiers, checked by way of `matrix_sdk::ruma`.

use matrix_sdk::ruma::{OwnedMxcUri, OwnedRoomOrAliasId, OwnedServerName, RoomId, UserId};
use vstd::prelude::*;
use crate::text::{law_until, lemma_until, lemma_until_is, slice_text, strip_prefix, to_chars, until};

verus! {

/// Whether `OwnedServerName` accepts a text.
pub uninterp spec fn is_server_name(name: Seq<char>) -> bool;

/// The message for a text that is to start with a sigil and to have a server name behind
/// its first colon; `None` where it does, and no null character stands before the colon.
pub open spec fn delimited_error(id: Seq<char>, sigil: char) -> Option<Seq<char>> {
    let colon = until(id, ':');
    if id.len() == 0 || id[0] != sigil {
        Some("leading sigil is incorrect or missing"@)
    } else if colon >= id.len() {
        Some("required colon is missing"@)
    } else if !is_server_name(id.skip(colon + 1)) {
        Some("server name is not a valid IP address or domain name"@)
    } else if id.take(colon).contains('\0') {
        Some("identifier contains invalid characters"@)
    } else {
        None
    }
}

/// The message for a text that is to be a user id; `None` for a user id.
pub open spec fn user_id_error(id: Seq<char>) -> Option<Seq<char>> {
    delimited_error(id, '@')
}

/// The message for a text that is to be a room id; `None` for a room id, which starts
/// with an exclamation mark and has no null character.
pub open spec fn room_id_error(id: Seq<char>) -> Option<Seq<char>> {
    if id.len() == 0 || id[0] != '!' {
        Some("leading sigil is incorrect or missing"@)
    } else if id.contains('\0') {
        Some("identifier contains invalid characters"@)
    } else {
        None
    }
}

/// The message for a text that is to be a room id or a room alias; `None` for either.
pub open spec fn room_or_alias_error(id: Seq<char>) -> Option<Seq<char>> {
    if id.len() > 0 && id[0] == '#' {
        delimited_error(id, '#')
    } else {
        room_id_error(id)
    }
}

/// Every room id is accepted where a room id or a room alias is asked for.
pub proof fn law_room_ids_are_accepted(id: Seq<char>)
    requires
        room_id_error(id) is None,
    ensures
        room_or_alias_error(id) is None,
{
}

/// Calls `matrix_sdk::ruma::UserId::parse`.
///
/// Claimed of it: it accepts exactly the user ids, and its message for any other text
/// tells the first part that is missing or malformed.
#[verifier::external_body]
pub(crate) fn check_user_id(id: &str) -> (r: Result<(), String>)
    ensures
        match r {
            Ok(_) => user_id_error(id@) is None,
            Err(message) => user_id_error(id@) == Some(message@),
        },
{
    match UserId::parse(id) {
        Ok(_) => Ok(()),
        Err(err) => Err(err.to_string()),
    }
}

/// Calls `<&matrix_sdk::ruma::RoomId>::try_from`.
///
/// Claimed of it: it accepts exactly the texts that start with an exclamation mark and
/// have no null character, with the messages of `room_id_error` for all others.
#[verifier::external_body]
pub(crate) fn check_room_id(id: &str) -> (r: Result<(), String>)
    ensures
        match r {
            Ok(_) => room_id_error(id@) is None,
            Err(message) => room_id_error(id@) == Some(message@),
        },
{
    match <&RoomId>::try_from(id) {
        Ok(_) => Ok(()),
        Err(err) => Err(err.to_string()),
    }
}

/// Calls `matrix_sdk::ruma::OwnedRoomOrAliasId::try_from`.
///
/// Claimed of it: it accepts exactly the room ids and room aliases, with the messages of
/// `room_or_alias_error` for all other texts.
#[verifier::external_body]
pub(crate) fn check_room_or_alias(id: &str) -> (r: Result<(), String>)
    ensures
        match r {
            Ok(_) => room_or_alias_error(id@) is None,
            Err(message) => room_or_alias_error(id@) == Some(message@),
        },
{
    match OwnedRoomOrAliasId::try_from(id) {
        Ok(_) => Ok(()),
        Err(err) => Err(err.to_string()),
    }
}

/// Calls `matrix_sdk::ruma::OwnedServerName::try_from`.
///
/// Claimed of it: the outcome depends on the text alone.
#[verifier::external_body]
pub(crate) fn check_server_name(name: &str) -> (r: bool)
    ensures
        r == is_server_name(name@),
{
    OwnedServerName::try_from(name).is_ok()
}

/// The position of the slash behind the server name of a content URI.
pub open spec fn mxc_slash(uri: Seq<char>) -> int {
    6 + until(uri.skip(6), '/')
}

/// Whether `c` may stand in a media id.
pub open spec fn is_media_char(c: char) -> bool {
    '0' <= c <= '9' || 'a' <= c <= 'z' || 'A' <= c <= 'Z' || c == '-' || c == '_'
}

/// Whether nothing but characters of a media id stands behind the slash.
pub open spec fn has_media_id(uri: Seq<char>) -> bool {
    forall|i: int| mxc_slash(uri) < i < uri.len() ==> is_media_char(#[trigger] uri[i])
}

/// Whether a text is a content URI: `mxc://`, a server name, a slash and a media id.
pub open spec fn is_mxc(uri: Seq<char>) -> bool {
    &&& "mxc://"@.is_prefix_of(uri)
    &&& mxc_slash(uri) < uri.len()
    &&& has_media_id(uri)
    &&& is_server_name(uri.subrange(6, mxc_slash(uri)))
}

/// The message for a text that is no content URI, by the first of its parts that is
/// missing or malformed.
pub open spec fn mxc_error(uri: Seq<char>) -> Seq<char> {
    if !"mxc://"@.is_prefix_of(uri) {
        "MXC URI schema was not mxc://"@
    } else if mxc_slash(uri) >= uri.len() {
        "MXC URI does not have first slash"@
    } else if !has_media_id(uri) {
        "Media Identifier malformed, invalid characters"@
    } else {
        "invalid Server Name"@
    }
}

/// Where the server name of a content URI is taken to end: the position of the slash is
/// kept in eight bits.
pub open spec fn mxc_end(uri: Seq<char>) -> int {
    mxc_slash(uri) % 256
}

/// Whether a text is no content URI, or one whose server name ends behind its beginning.
pub open spec fn mxc_supported(uri: Seq<char>) -> bool {
    is_mxc(uri) ==> mxc_end(uri) >= 6
}

/// Whether a text is no content URI, or one whose server name ends behind its beginning.
pub fn is_mxc_supported(uri: &str) -> (r: bool)
    ensures
        r == mxc_supported(uri@),
{
    if strip_prefix(uri, "mxc://").is_none() {
        return true;
    }
    proof {
        reveal_strlit("mxc://");
        assert("mxc://"@.len() == 6);
    }
    let v = to_chars(uri);
    let mut slash: usize = 6;
    while slash < v.len() && v[slash] != '/'
        invariant
            6 <= slash <= v.len(),
            forall|k: int| 6 <= k < slash ==> v@[k] != '/',
        decreases v.len() - slash,
    {
        slash += 1;
    }
    proof {
        let rest = v@.skip(6);
        assert forall|j: int| 0 <= j < slash - 6 implies rest[j] != '/' by {
            assert(rest[j] == v@[j + 6]);
        }
        lemma_until_is(rest, '/', slash - 6);
    }
    if slash == v.len() || slash % 256 >= 6 {
        return true;
    }
    let mut i: usize = slash + 1;
    while i < v.len()
        invariant
            slash < i <= v.len(),
            v@ == uri@,
            slash == mxc_slash(uri@),
            forall|k: int| slash < k < i ==> is_media_char(#[trigger] v@[k]),
        decreases v.len() - i,
    {
        let c = v[i];
        let digit = '0' <= c && c <= '9';
        let letter = ('a' <= c && c <= 'z') || ('A' <= c && c <= 'Z');
        if !digit && !letter && c != '-' && c != '_' {
            assert(!is_media_char(uri@[i as int]));
            return true;
        }
        i += 1;
    }
    !check_server_name(slice_text(&v, 6, slash).as_str())
}

/// Calls `matrix_sdk::ruma::MxcUri::parts`.
///
/// Claimed of it: it accepts exactly the content URIs, and takes the server name up to,
/// and the media id from behind, the position of the slash as eight bits hold it. The
/// message for any other text tells the first part that is missing or malformed. Content
/// URIs are left out where that position would come to lie before the server name.
#[verifier::external_body]
pub(crate) fn split_mxc(uri: &str) -> (r: Result<(String, String), String>)
    requires
        mxc_supported(uri@),
    ensures
        match r {
            Ok(parts) => {
                &&& is_mxc(uri@)
                &&& parts.0@ == uri@.subrange(6, mxc_end(uri@))
                &&& parts.1@ == uri@.skip(mxc_end(uri@) + 1)
            },
            Err(message) => !is_mxc(uri@) && message@ == mxc_error(uri@),
        },
{
    match OwnedMxcUri::from(uri).parts() {
        Ok((server, media)) => Ok((server.to_string(), media.to_string())),
        Err(err) => Err(err.to_string()),
    }
}

/// The parts of a content URI whose server name is of ordinary length make up the URI
/// again, and such a URI is always supported.
pub proof fn law_mxc_parts(uri: Seq<char>)
    requires
        is_mxc(uri),
        mxc_slash(uri) < 256,
    ensures
        mxc_supported(uri),
        uri == "mxc://"@ + uri.subrange(6, mxc_end(uri)) + seq!['/'] + uri.skip(mxc_end(uri) + 1),
{
    reveal_strlit("mxc://");
    let slash = mxc_slash(uri);
    lemma_until(uri.skip(6), '/');
    assert(uri[slash] == uri.skip(6)[slash - 6]);
    assert(uri == uri.take(6) + uri.subrange(6, slash) + seq![uri[slash]] + uri.skip(slash + 1));
    assert(uri.take(6) == "mxc://"@);
}

/// `mxc://`, a server name, a slash and the characters of a media id make a content URI, and
/// the slash stands behind the server name.
pub proof fn law_content_uris(server: Seq<char>, media_id: Seq<char>)
    requires
        is_server_name(server),
        !server.contains('/'),
        forall|i: int|
            0 <= i < media_id.len() ==> ('0' <= #[trigger] media_id[i] <= '9' || 'a' <= media_id[i]
                <= 'z' || 'A' <= media_id[i] <= 'Z' || media_id[i] == '-' || media_id[i] == '_'),
    ensures
        ({
            let uri = "mxc://"@ + server + seq!['/'] + media_id;
            &&& is_mxc(uri)
            &&& mxc_slash(uri) == 6 + server.len()
            &&& mxc_supported(uri) <==> (6 + server.len()) % 256 >= 6
        }),
{
    reveal_strlit("mxc://");
    let scheme = "mxc://"@;
    let uri = scheme + server + seq!['/'] + media_id;
    assert(uri.skip(6) == server + seq!['/'] + media_id);
    law_until(server, '/', media_id);
    assert(scheme.is_prefix_of(uri)) by {
        assert(uri.subrange(0, 6) == scheme);
    }
    assert(uri.subrange(6, (6 + server.len()) as int) == server);
    assert forall|i: int| mxc_slash(uri) < i < uri.len() implies is_media_char(
        #[trigger] uri[i],
    ) by {
        assert(uri[i] == media_id[i - 7 - server.len()]);
    }
}

/// A text that is no content URI is always supported: it is refused.
pub proof fn law_other_texts_are_supported(uri: Seq<char>)
    requires
        !is_mxc(uri),
    ensures
        mxc_supported(uri),
{
}

}
