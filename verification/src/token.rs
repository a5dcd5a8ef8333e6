//! Reading the answer of the token exchange.

use vstd::prelude::*;
use vstd::string::*;
use crate::endpoint::{is_success, success};
use crate::error::{Cause, Error};
use crate::json::{json_document, json_tree, parse_document, text_at, JsonModel};

verus! {

/// The token that a token envelope carries: the text of its member `token`.
pub open spec fn token_in(document: JsonModel) -> Option<Seq<char>> {
    document.text_member("token"@)
}

/// The token that the body of an answer carries, where the body is a token
/// envelope.
pub open spec fn token_of(body: Seq<char>) -> Option<Seq<char>> {
    match json_document(body) {
        Some(document) => token_in(document),
        None => None,
    }
}

/// What reading a body gives: the token, or [`Error::Auth`] for a malformed
/// body.
pub open spec fn token_read(token: Option<Seq<char>>, r: Result<String, Error>) -> bool {
    match token {
        Some(text) => r matches Ok(token) && token@ == text,
        None => r == Err::<String, Error>(Error::Auth(Cause::Body)),
    }
}

/// Takes the token out of a parsed token envelope.
pub fn token_from_document(document: &serde_json::Value) -> (r: Result<String, Error>)
    ensures
        token_read(token_in(json_tree(*document)), r),
{
    match text_at(document, "token") {
        Some(text) => Ok(text.to_owned()),
        None => Err(Error::Auth(Cause::Body)),
    }
}

/// Parses the body of the token exchange's answer.
pub fn parse_token(body: &str) -> (r: Result<String, Error>)
    ensures
        token_read(token_of(body@), r),
{
    match parse_document(body) {
        Some(document) => token_from_document(&document),
        None => Err(Error::Auth(Cause::Body)),
    }
}

/// Reads the answer of the token exchange.
///
/// Fails with [`Error::Auth`] where `status` is not a success status, and
/// where the body is not a token envelope.
pub fn read_token(status: u16, body: &str) -> (r: Result<String, Error>)
    ensures
        if success(status) {
            token_read(token_of(body@), r)
        } else {
            r == Err::<String, Error>(Error::Auth(Cause::Status(status)))
        },
{
    if !is_success(status) {
        return Err(Error::Auth(Cause::Status(status)));
    }
    parse_token(body)
}

/// An object whose member `token` is a string is a token envelope, and that
/// string is its token, whatever else the object holds.
pub proof fn lemma_token_envelope(members: Map<Seq<char>, JsonModel>, token: Seq<char>)
    requires
        members.contains_key("token"@),
        members["token"@] == JsonModel::Text(token),
    ensures
        token_in(JsonModel::Object(members)) == Some(token),
{
}

/// Only an object whose member `token` is a string is a token envelope.
pub proof fn lemma_token_envelope_only(document: JsonModel)
    requires
        token_in(document) is Some,
    ensures
        document is Object,
        document->Object_0.contains_key("token"@),
        document->Object_0["token"@] == JsonModel::Text(token_in(document)->0),
{
}

} // verus!
