//! The parameters of the two requests of a login.

use crate::session::{Client, DEFAULT_LANG, WECHAT_WEB_APP_ID};
use vstd::prelude::*;

verus! {

/// The form fields of the request for a QR code.
#[derive(Debug)]
pub struct QrCodeRetrieveParams {
    /// The identifier of this application.
    pub appid: String,
    /// The mode of the request.
    pub fun: String,
    /// The locale asked for.
    pub lang: String,
    /// The time of the request in milliseconds; sent under the name `_`.
    pub now: i64,
}

/// The query of a poll for the state of the scan.
#[derive(Debug)]
pub struct QrCodeScanResultParams {
    /// The status flag of the attempt.
    pub tip: i32,
    /// The uuid of the attempt.
    pub uuid: String,
    /// The time of the request in milliseconds; sent under the name `_`.
    pub now: i64,
    /// Whether the avatar of the user is asked for.
    pub loginicon: bool,
}

impl QrCodeRetrieveParams {
    /// The fields of a request made at the time `now`: the application's
    /// identifier, the mode `new` and the default locale.
    pub fn new(now: i64) -> (params: QrCodeRetrieveParams)
        ensures
            params.appid@ == WECHAT_WEB_APP_ID@,
            params.fun@ == "new"@,
            params.lang@ == DEFAULT_LANG@,
            params.now == now,
    {
        QrCodeRetrieveParams {
            appid: WECHAT_WEB_APP_ID.to_owned(),
            fun: "new".to_owned(),
            lang: DEFAULT_LANG.to_owned(),
            now,
        }
    }
}

impl Client {
    /// The query of a poll made at the time `now`: the status flag and the
    /// uuid of the attempt, and no avatar asked for.
    pub fn scan_result_params(&self, now: i64) -> (params: QrCodeScanResultParams)
        ensures
            params.tip == self@.tip,
            params.uuid@ == self@.uuid,
            params.now == now,
            !params.loginicon,
    {
        QrCodeScanResultParams { tip: self.tip(), uuid: self.uuid().clone(), now, loginicon: false }
    }
}

} // verus!
