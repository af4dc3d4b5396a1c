//! What can go wrong during a login.

use vstd::prelude::*;

verus! {

/// The reasons for which a step of the login fails.
#[derive(Debug)]
pub enum LoginError {
    /// The reply to the request for a QR code carries a status other than
    /// `200`; `status` is the status as it was sent, empty where none was.
    QrIssuanceRejected { status: String },
    /// The redirect URL is no URL, or its query cannot be decoded.
    MalformedUrl,
    /// The login was confirmed, but the reply names no redirect URL.
    MissingRedirectUrl,
    /// A reply lacks `field`, which it has to carry.
    UnvalidatedField { field: String },
}

/// A `LoginError` with the characters of its texts.
pub enum Failure {
    QrIssuanceRejected { status: Seq<char> },
    MalformedUrl,
    MissingRedirectUrl,
    UnvalidatedField { field: Seq<char> },
}

impl View for LoginError {
    type V = Failure;

    open spec fn view(&self) -> Failure {
        match self {
            LoginError::QrIssuanceRejected { status } => Failure::QrIssuanceRejected {
                status: status@,
            },
            LoginError::MalformedUrl => Failure::MalformedUrl,
            LoginError::MissingRedirectUrl => Failure::MissingRedirectUrl,
            LoginError::UnvalidatedField { field } => Failure::UnvalidatedField { field: field@ },
        }
    }
}

impl LoginError {
    /// A sentence that says what went wrong.
    pub fn message(&self) -> (text: String)
        ensures
            text@ == match self@ {
                Failure::QrIssuanceRejected { .. } => "The window.QRLogin.code is not 200"@,
                Failure::MalformedUrl => "Failed to parse from redirect_url"@,
                Failure::MissingRedirectUrl => "Failed to retrieve redirect_url"@,
                Failure::UnvalidatedField { .. } => "The reply lacks a field that it has to carry"@,
            },
    {
        match self {
            LoginError::QrIssuanceRejected { .. } => "The window.QRLogin.code is not 200".to_owned(),
            LoginError::MalformedUrl => "Failed to parse from redirect_url".to_owned(),
            LoginError::MissingRedirectUrl => "Failed to retrieve redirect_url".to_owned(),
            LoginError::UnvalidatedField { .. } => "The reply lacks a field that it has to carry".to_owned(),
        }
    }
}

} // verus!
