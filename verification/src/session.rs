//! The state of one login attempt and the steps that change it.

use crate::error::{Failure, LoginError};
use crate::fields::FieldMap;
use crate::text::text_fields;
use crate::util::{process_redirect_url, redirect_fields, text_to_map};
use vstd::prelude::*;

verus! {

/// The identifier under which the web service knows this application.
pub const WECHAT_WEB_APP_ID: &'static str = "wx782c26e4c19acffb";

/// Where a QR code is requested.
pub const QR_CODE_URL: &'static str = "https://wx.qq.com/jslogin";

/// Where the state of the scan is asked for.
pub const QR_CODE_SCAN_RESULT_URL: &'static str = "https://wx.qq.com/cgi-bin/mmwebwx-bin/login";

/// The locale that a new attempt asks for.
pub const DEFAULT_LANG: &'static str = "zh_CN";

/// The state of a login attempt as contracts see it.
pub struct Session {
    pub uuid: Seq<char>,
    pub lang: Seq<char>,
    pub scan: Seq<char>,
    pub ticket: Seq<char>,
    pub tip: int,
}

/// Where a login attempt stands.
#[derive(Debug, Clone, Copy, PartialEq, Eq, Structural)]
pub enum Stage {
    /// The QR code has not been scanned (`tip` is 1).
    AwaitingScan,
    /// The code was scanned, the login is not confirmed (`tip` is 0).
    Scanned,
    /// The login is confirmed (`tip` is -1).
    Confirmed,
}

/// What to do after a reply to a poll.
#[derive(Debug, Clone, Copy, PartialEq, Eq, Structural)]
pub enum Poll {
    /// The login is not confirmed yet: ask again.
    Again,
    /// The login is confirmed: stop.
    Done,
}

/// The state of one login attempt.
#[derive(Debug)]
pub struct Client {
    uuid: String,
    lang: String,
    scan: String,
    ticket: String,
    tip: i32,
}

/// The value of `key` in `fields`, or the empty text where it has none.
pub open spec fn field_or_empty(fields: Map<Seq<char>, Seq<char>>, key: Seq<char>) -> Seq<char> {
    if fields.contains_key(key) {
        fields[key]
    } else {
        Seq::empty()
    }
}

/// `session` after taking over `uuid`, `lang`, `scan` and `ticket` from
/// `fields`, each where `fields` has it.
pub open spec fn merged(session: Session, fields: Map<Seq<char>, Seq<char>>) -> Session {
    Session {
        uuid: if fields.contains_key("uuid"@) {
            fields["uuid"@]
        } else {
            session.uuid
        },
        lang: if fields.contains_key("lang"@) {
            fields["lang"@]
        } else {
            session.lang
        },
        scan: if fields.contains_key("scan"@) {
            fields["scan"@]
        } else {
            session.scan
        },
        ticket: if fields.contains_key("ticket"@) {
            fields["ticket"@]
        } else {
            session.ticket
        },
        tip: session.tip,
    }
}

/// The uuid that the reply to the request for a QR code issues, or the
/// reason for which the reply is refused.
pub open spec fn issued_uuid(reply: Seq<char>) -> Result<Seq<char>, Failure> {
    let fields = text_fields(reply);
    let status = field_or_empty(fields, "window.QRLogin.code"@);
    if status != "200"@ {
        Err(Failure::QrIssuanceRejected { status })
    } else if !fields.contains_key("window.QRLogin.uuid"@) {
        Err(Failure::UnvalidatedField { field: "window.QRLogin.uuid"@ })
    } else {
        Ok(fields["window.QRLogin.uuid"@])
    }
}

/// The state that follows `session` on the reply `reply` to a poll, or the
/// reason for which the attempt fails.
///
/// Status `201` while awaiting the scan leads to `tip` 0. Status `200` after
/// the scan leads to `tip` -1 and takes over the fields of the redirect URL,
/// which the reply has to carry. Anything else changes nothing.
pub open spec fn after_poll(session: Session, reply: Seq<char>) -> Result<Session, Failure> {
    let fields = text_fields(reply);
    let status = field_or_empty(fields, "window.code"@);
    let redirect = field_or_empty(fields, "window.redirect_uri"@);
    if session.tip == 1 && status == "201"@ {
        Ok(Session { tip: 0, ..session })
    } else if session.tip == 0 && status == "200"@ {
        if redirect.len() == 0 {
            Err(Failure::MissingRedirectUrl)
        } else {
            match redirect_fields(redirect) {
                None => Err(Failure::MalformedUrl),
                Some(found) => Ok(Session { tip: -1, ..merged(session, found) }),
            }
        }
    } else {
        Ok(session)
    }
}

/// The stage that a value of `tip` stands for.
pub open spec fn stage_of(tip: int) -> Stage {
    if tip >= 1 {
        Stage::AwaitingScan
    } else if tip == 0 {
        Stage::Scanned
    } else {
        Stage::Confirmed
    }
}

/// What to do in the state `session`: ask again until the login is confirmed.
pub open spec fn poll_of(session: Session) -> Poll {
    if session.tip < 0 {
        Poll::Done
    } else {
        Poll::Again
    }
}

impl View for Client {
    type V = Session;

    closed spec fn view(&self) -> Session {
        Session {
            uuid: self.uuid@,
            lang: self.lang@,
            scan: self.scan@,
            ticket: self.ticket@,
            tip: self.tip as int,
        }
    }
}

impl Client {
    #[verifier::type_invariant]
    spec fn tip_in_range(&self) -> bool {
        -1 <= self.tip <= 1
    }

    /// A new attempt: nothing issued, the default locale, awaiting the scan.
    pub fn new() -> (client: Client)
        ensures
            client@ == (Session {
                uuid: Seq::empty(),
                lang: DEFAULT_LANG@,
                scan: Seq::empty(),
                ticket: Seq::empty(),
                tip: 1,
            }),
    {
        Client {
            uuid: String::new(),
            lang: DEFAULT_LANG.to_owned(),
            scan: String::new(),
            ticket: String::new(),
            tip: 1,
        }
    }

    /// The uuid that identifies the attempt; empty until a QR code is issued.
    pub fn uuid(&self) -> (uuid: &String)
        ensures
            uuid@ == self@.uuid,
    {
        &self.uuid
    }

    /// The locale of the attempt.
    pub fn lang(&self) -> (lang: &String)
        ensures
            lang@ == self@.lang,
    {
        &self.lang
    }

    /// The scan mark; empty until the login is confirmed.
    pub fn scan(&self) -> (scan: &String)
        ensures
            scan@ == self@.scan,
    {
        &self.scan
    }

    /// The ticket that the login yields; empty until the login is confirmed.
    pub fn ticket(&self) -> (ticket: &String)
        ensures
            ticket@ == self@.ticket,
    {
        &self.ticket
    }

    /// The status flag: 1 awaiting the scan, 0 scanned, -1 confirmed.
    pub fn tip(&self) -> (tip: i32)
        ensures
            tip == self@.tip,
            -1 <= tip <= 1,
    {
        proof {
            use_type_invariant(self);
        }
        self.tip
    }

    /// Where the attempt stands.
    pub fn stage(&self) -> (stage: Stage)
        ensures
            stage == stage_of(self@.tip),
    {
        if self.tip >= 1 {
            Stage::AwaitingScan
        } else if self.tip == 0 {
            Stage::Scanned
        } else {
            Stage::Confirmed
        }
    }

    /// Takes over `uuid`, `lang`, `scan` and `ticket` from `map`, each where
    /// `map` has it. Other fields of `map` are passed over.
    pub fn set_from_map(&mut self, map: &FieldMap) -> (this: &Self)
        ensures
            final(self)@ == merged(old(self)@, map@),
            this@ == final(self)@,
    {
        proof {
            use_type_invariant(&*self);
        }
        match map.get("uuid") {
            Some(value) => {
                self.uuid = value.clone();
            },
            None => {},
        }
        match map.get("lang") {
            Some(value) => {
                self.lang = value.clone();
            },
            None => {},
        }
        match map.get("scan") {
            Some(value) => {
                self.scan = value.clone();
            },
            None => {},
        }
        match map.get("ticket") {
            Some(value) => {
                self.ticket = value.clone();
            },
            None => {},
        }
        self
    }

    /// Reads the reply to the request for a QR code: the uuid that it issues.
    ///
    /// Fails with `QrIssuanceRejected` unless the status of the reply is
    /// `200`, and with `UnvalidatedField` where such a reply names no uuid.
    pub fn process_qr_code_response(resp: &str) -> (uuid: Result<String, LoginError>)
        ensures
            match issued_uuid(resp@) {
                Ok(expected) => uuid matches Ok(found) && found@ == expected,
                Err(failure) => uuid matches Err(error) && error@ == failure,
            },
    {
        let result = text_to_map(resp);
        let status = match result.get("window.QRLogin.code") {
            Some(value) => value.clone(),
            None => String::new(),
        };
        if status != "200".to_owned() {
            return Err(LoginError::QrIssuanceRejected { status });
        }
        match result.get("window.QRLogin.uuid") {
            Some(value) => Ok(value.clone()),
            None => Err(LoginError::UnvalidatedField { field: "window.QRLogin.uuid".to_owned() }),
        }
    }

    /// Takes the reply to the request for a QR code: stores the uuid that it
    /// issues and hands it out. A reply that is refused changes nothing.
    pub fn retrieve_qr_code(&mut self, resp_body: &str) -> (uuid: Result<String, LoginError>)
        ensures
            match issued_uuid(resp_body@) {
                Ok(expected) => uuid matches Ok(found) && found@ == expected && final(self)@ == (
                Session { uuid: expected, ..old(self)@ }),
                Err(failure) => uuid matches Err(error) && error@ == failure && final(self)@ == old(
                    self,
                )@,
            },
    {
        proof {
            use_type_invariant(&*self);
        }
        match Client::process_qr_code_response(resp_body) {
            Ok(scan_code_uuid) => {
                self.uuid = scan_code_uuid.clone();
                Ok(scan_code_uuid)
            },
            Err(error) => Err(error),
        }
    }

    /// Takes the reply to one poll and moves the attempt on as `after_poll`
    /// says. A reply on which the attempt fails changes nothing.
    pub fn process_qr_code_scan_result_response(&mut self, resp_text: &str) -> (outcome: Result<
        (),
        LoginError,
    >)
        ensures
            match after_poll(old(self)@, resp_text@) {
                Ok(next) => outcome is Ok && final(self)@ == next,
                Err(failure) => outcome matches Err(error) && error@ == failure && final(self)@
                    == old(self)@,
            },
            final(self)@.tip <= old(self)@.tip,
    {
        proof {
            use_type_invariant(&*self);
        }
        let resp = text_to_map(resp_text);
        let window_code = match resp.get("window.code") {
            Some(value) => value.clone(),
            None => String::new(),
        };
        if self.tip == 1 && window_code == "201".to_owned() {
            self.tip = 0;
            return Ok(());
        }
        if self.tip == 0 && window_code == "200".to_owned() {
            let redirect_url = match resp.get("window.redirect_uri") {
                Some(value) => value.clone(),
                None => String::new(),
            };
            if redirect_url.as_str().is_empty() {
                return Err(LoginError::MissingRedirectUrl);
            }
            match process_redirect_url(&redirect_url) {
                Ok(redirect_params) => {
                    self.set_from_map(&redirect_params);
                    self.tip = -1;
                    return Ok(());
                },
                Err(error) => {
                    return Err(error);
                },
            }
        }
        Ok(())
    }

    /// One step of the poll loop: takes the reply to a poll as
    /// `process_qr_code_scan_result_response` does and says whether to ask
    /// again. The caller sends the next request, and stops on `Done` or on
    /// an error.
    pub fn get_qr_code_scan_result(&mut self, resp_text: &str) -> (outcome: Result<Poll, LoginError>)
        ensures
            match after_poll(old(self)@, resp_text@) {
                Ok(next) => outcome == Ok::<Poll, LoginError>(poll_of(next)) && final(self)@
                    == next,
                Err(failure) => outcome matches Err(error) && error@ == failure && final(self)@
                    == old(self)@,
            },
    {
        match self.process_qr_code_scan_result_response(resp_text) {
            Ok(_) => {
                if self.tip < 0 {
                    return Ok(Poll::Done);
                }
                Ok(Poll::Again)
            },
            Err(err) => Err(err),
        }
    }
}

} // verus!
