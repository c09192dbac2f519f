//! The messages exchanged with the speech recognition service and with the
//! bot, and what the server makes of them.

use vstd::prelude::*;
use vstd::string::*;
use crate::errors::{AppErr, INTERNAL_SERVER_ERROR, internal_error};

verus! {

/// The answer of the recognition service's sign-in.
#[derive(Clone, Debug)]
pub struct AuthResp {
    pub access_token: String,
    pub token_type: String,
}

/// The answer of the recognition service for an uploaded file: the text of
/// its first channel and, for stereo files, of the second.
#[derive(Clone, Debug)]
pub struct SttResp {
    pub ch1: N0,
    pub ch2: Option<N1>,
}

/// The recognized text of the first channel.
#[derive(Clone, Debug)]
pub struct N0 {
    pub file_name: String,
    pub text: String,
}

/// The recognized text of the second channel.
#[derive(Clone, Debug)]
pub struct N1 {
    pub file_name: String,
    pub text: String,
}

/// A request to transcribe the video behind a link.
#[derive(Clone, Debug)]
pub struct Ytdlp {
    pub url: String,
}

/// The message of the error answered when the recognition service could
/// not be reached with the current token.
pub const JWT_EXPIRED: &'static str = "jwt expired";

/// The recognition service's sign-in address for `login` and `password`.
pub fn sign_in_url(login: &str, password: &str) -> (u: String)
    ensures
        u@ == "http://asrdemo.devmachine.tech/auth/sign-in?username="@ + login@ + "&password="@
            + password@,
{
    let mut u = String::from_str("http://asrdemo.devmachine.tech/auth/sign-in?username=");
    u.append(login);
    u.append("&password=");
    u.append(password);
    u
}

/// The error answered when a request to the recognition service failed, so
/// that the token has to be renewed.
pub fn expired_token_error() -> (e: AppErr)
    ensures
        e.code == INTERNAL_SERVER_ERROR,
        e.msg@ == JWT_EXPIRED@,
{
    internal_error(JWT_EXPIRED)
}

/// The transcript in the recognition service's answer: the text of the
/// first channel; an answer that could not be read (`Err` with the reason)
/// gives an internal server error with the reason as message.
pub fn transcript_from_reply(reply: Result<SttResp, String>) -> (r: Result<String, AppErr>)
    ensures
        match reply {
            Ok(resp) => r matches Ok(t) && t@ == resp.ch1.text@,
            Err(reason) => r matches Err(e) && e.code == INTERNAL_SERVER_ERROR && e.msg@
                == reason@,
        },
{
    match reply {
        Ok(resp) => Ok(resp.ch1.text),
        Err(reason) => Err(AppErr::new(INTERNAL_SERVER_ERROR, reason)),
    }
}

/// What the server does once it has tried to send a file to the
/// recognition service.
#[derive(Debug)]
pub enum SttStep {
    /// The request did not go through: renew the token, then answer with
    /// this error.
    RenewTokenThenFail(AppErr),
    /// Answer with this.
    Answer(Result<String, AppErr>),
}

/// Decides what follows a request to the recognition service: `None` when
/// the request failed, otherwise the reply as read (`Err` with the reason
/// when it could not be read).
pub fn after_stt_request(reply: Option<Result<SttResp, String>>) -> (step: SttStep)
    ensures
        match reply {
            None => step matches SttStep::RenewTokenThenFail(e) && e.code == INTERNAL_SERVER_ERROR
                && e.msg@ == JWT_EXPIRED@,
            Some(Ok(resp)) => step matches SttStep::Answer(Ok(t)) && t@ == resp.ch1.text@,
            Some(Err(reason)) => step matches SttStep::Answer(Err(e)) && e.code
                == INTERNAL_SERVER_ERROR && e.msg@ == reason@,
        },
{
    match reply {
        None => SttStep::RenewTokenThenFail(expired_token_error()),
        Some(r) => SttStep::Answer(transcript_from_reply(r)),
    }
}

} // verus!
