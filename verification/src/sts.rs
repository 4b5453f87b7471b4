//! The answer of the role-assumption call.

use crate::json::{get_text, json_document, json_of, member, member_of, parse, text_member, Json};
use vstd::prelude::*;

verus! {

/// Temporary credentials: all four fields are present.
#[derive(Debug, Clone, PartialEq, Eq)]
pub struct Credentials {
    pub access_key_id: String,
    pub secret_access_key: String,
    pub session_token: String,
    pub expiration: String,
}

/// Temporary credentials, with the texts of their fields.
pub struct CredentialsView {
    pub access_key_id: Seq<char>,
    pub secret_access_key: Seq<char>,
    pub session_token: Seq<char>,
    pub expiration: Seq<char>,
}

impl View for Credentials {
    type V = CredentialsView;

    open spec fn view(&self) -> CredentialsView {
        CredentialsView {
            access_key_id: self.access_key_id@,
            secret_access_key: self.secret_access_key@,
            session_token: self.session_token@,
            expiration: self.expiration@,
        }
    }
}

/// The identity that was assumed.
#[derive(Debug, Clone, PartialEq, Eq)]
pub struct AssumedRoleUser {
    pub assumed_role_id: String,
    pub arn: String,
}

/// The assumed identity, with the texts of its fields.
pub struct AssumedRoleUserView {
    pub assumed_role_id: Seq<char>,
    pub arn: Seq<char>,
}

impl View for AssumedRoleUser {
    type V = AssumedRoleUserView;

    open spec fn view(&self) -> AssumedRoleUserView {
        AssumedRoleUserView { assumed_role_id: self.assumed_role_id@, arn: self.arn@ }
    }
}

/// What a successful exchange answers: credentials and whose they are.
#[derive(Debug, Clone, PartialEq, Eq)]
pub struct StsResponse {
    pub credentials: Credentials,
    pub assumed_role_user: AssumedRoleUser,
}

/// A successful answer, with the texts of its fields.
pub struct StsResponseView {
    pub credentials: CredentialsView,
    pub assumed_role_user: AssumedRoleUserView,
}

impl View for StsResponse {
    type V = StsResponseView;

    open spec fn view(&self) -> StsResponseView {
        StsResponseView { credentials: self.credentials@, assumed_role_user: self.assumed_role_user@ }
    }
}

/// The credentials that a JSON object holds: each of the four fields is a
/// member of the object and a string.
pub open spec fn credentials_of(object: Json) -> Option<CredentialsView> {
    match (
        text_member(object, "AccessKeyId"@),
        text_member(object, "SecretAccessKey"@),
        text_member(object, "SessionToken"@),
        text_member(object, "Expiration"@),
    ) {
        (Some(access_key_id), Some(secret_access_key), Some(session_token), Some(expiration)) => Some(
            CredentialsView { access_key_id, secret_access_key, session_token, expiration },
        ),
        _ => None,
    }
}

/// The assumed identity that a JSON object holds.
pub open spec fn assumed_role_user_of(object: Json) -> Option<AssumedRoleUserView> {
    match (text_member(object, "AssumedRoleId"@), text_member(object, "Arn"@)) {
        (Some(assumed_role_id), Some(arn)) => Some(AssumedRoleUserView { assumed_role_id, arn }),
        _ => None,
    }
}

/// The answer that a JSON document holds: credentials under `Credentials`
/// and the assumed identity under `AssumedRoleUser`, both complete.
pub open spec fn response_of(document: Json) -> Option<StsResponseView> {
    match (member_of(document, "Credentials"@), member_of(document, "AssumedRoleUser"@)) {
        (Some(first), Some(second)) => match (credentials_of(first), assumed_role_user_of(second)) {
            (Some(credentials), Some(assumed_role_user)) => Some(StsResponseView { credentials, assumed_role_user }),
            _ => None,
        },
        _ => None,
    }
}

/// The answer that a text holds, if it is a JSON document with a complete
/// answer.
pub open spec fn response_of_text(text: Seq<char>) -> Option<StsResponseView> {
    match json_document(text) {
        Some(document) => response_of(document),
        None => None,
    }
}

impl Credentials {
    /// The credentials in a JSON object, if all four fields are there.
    pub fn from_object(object: &serde_json::Value) -> (credentials: Option<Self>)
        ensures
            match credentials {
                Some(found) => credentials_of(json_of(*object)) == Some(found@),
                None => credentials_of(json_of(*object)) is None,
            },
    {
        let access_key_id = get_text(object, "AccessKeyId");
        let secret_access_key = get_text(object, "SecretAccessKey");
        let session_token = get_text(object, "SessionToken");
        let expiration = get_text(object, "Expiration");
        match (access_key_id, secret_access_key, session_token, expiration) {
            (Some(access_key_id), Some(secret_access_key), Some(session_token), Some(expiration)) => Some(
                Credentials { access_key_id, secret_access_key, session_token, expiration },
            ),
            _ => None,
        }
    }
}

impl AssumedRoleUser {
    /// The assumed identity in a JSON object, if both fields are there.
    pub fn from_object(object: &serde_json::Value) -> (user: Option<Self>)
        ensures
            match user {
                Some(found) => assumed_role_user_of(json_of(*object)) == Some(found@),
                None => assumed_role_user_of(json_of(*object)) is None,
            },
    {
        let assumed_role_id = get_text(object, "AssumedRoleId");
        let arn = get_text(object, "Arn");
        match (assumed_role_id, arn) {
            (Some(assumed_role_id), Some(arn)) => Some(AssumedRoleUser { assumed_role_id, arn }),
            _ => None,
        }
    }
}

impl StsResponse {
    /// The answer in a JSON document, if it is complete.
    pub fn from_document(document: &serde_json::Value) -> (response: Option<Self>)
        ensures
            match response {
                Some(found) => response_of(json_of(*document)) == Some(found@),
                None => response_of(json_of(*document)) is None,
            },
    {
        let first = match member(document, "Credentials") {
            Some(object) => object,
            None => { return None; },
        };
        let second = match member(document, "AssumedRoleUser") {
            Some(object) => object,
            None => { return None; },
        };
        let credentials = match Credentials::from_object(first) {
            Some(found) => found,
            None => { return None; },
        };
        let assumed_role_user = match AssumedRoleUser::from_object(second) {
            Some(found) => found,
            None => { return None; },
        };
        Some(StsResponse { credentials, assumed_role_user })
    }

    /// The answer in a text, if the text is a JSON document with a complete
    /// answer.
    pub fn from_text(text: &str) -> (response: Option<Self>)
        ensures
            match response {
                Some(found) => response_of_text(text@) == Some(found@),
                None => response_of_text(text@) is None,
            },
    {
        match parse(text) {
            Some(document) => StsResponse::from_document(&document),
            None => None,
        }
    }
}

} // verus!
