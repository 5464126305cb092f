//! Classification of numeric completion statuses into typed outcomes.
//!
//! A completed request carries a numeric status code. `classify` maps the
//! code (together with an optional redirect location reported by the host)
//! to a typed outcome: every code below 400 is success-shaped, every code of
//! 400 and above is error-shaped, and a fixed table of codes gets a named
//! variant.

use vstd::prelude::*;

verus! {

/// Named success statuses.
#[derive(Debug, Clone, PartialEq)]
pub enum XmlHttpRequestSuccessStatus {
    OK,
    Created,
    NoContent,
    PartialContent,
}

/// Named redirect statuses; each but `NotModified` carries the redirect
/// location the host reported, when it reported one.
#[derive(Debug, Clone, PartialEq)]
pub enum XmlHttpRequestRedirectStatus {
    MovedPermanently(Option<String>),
    Found(Option<String>),
    SeeOther(Option<String>),
    NotModified,
    TemporaryRedirect(Option<String>),
    PermanentRedirect(Option<String>),
}

/// Named client-error statuses.
#[derive(Debug, Clone, PartialEq)]
pub enum XmlHttpRequestClientErrorStatus {
    BadRequest,
    Unauthorized,
    Forbidden,
    NotFound,
    MethodNotAllowed,
    NotAcceptable,
}

/// Named server-error statuses.
#[derive(Debug, Clone, PartialEq)]
pub enum XmlHttpRequestServerErrorStatus {
    InternalServerError,
    NotImplemented,
    BadGateway,
    ServiceNotAvailable,
}

/// The success-shaped side of a classification: a named success, a named
/// redirect, or any other code below 400.
#[derive(Debug, Clone, PartialEq)]
pub enum XmlHttpRequestOk {
    XmlHttpRequestSuccess(XmlHttpRequestSuccessStatus),
    XmlHttpRequestRedirect(XmlHttpRequestRedirectStatus),
    Other(u16, Option<String>),
}

/// The error-shaped side of a classification: a named client or server
/// error, or any other code of 400 and above.
#[derive(Debug, Clone, PartialEq)]
pub enum XmlHttpRequestErr {
    XmlHttpRequestClientError(XmlHttpRequestClientErrorStatus),
    XmlHttpRequestServerError(XmlHttpRequestServerErrorStatus),
    Other(u16),
}

/// The success-shaped outcome the table assigns to `status`, with `url` as
/// the redirect location where the table calls for one.
pub open spec fn spec_ok_from_status(status: u16, url: Option<String>) -> XmlHttpRequestOk {
    if status == 200 {
        XmlHttpRequestOk::XmlHttpRequestSuccess(XmlHttpRequestSuccessStatus::OK)
    } else if status == 201 {
        XmlHttpRequestOk::XmlHttpRequestSuccess(XmlHttpRequestSuccessStatus::Created)
    } else if status == 204 {
        XmlHttpRequestOk::XmlHttpRequestSuccess(XmlHttpRequestSuccessStatus::NoContent)
    } else if status == 206 {
        XmlHttpRequestOk::XmlHttpRequestSuccess(XmlHttpRequestSuccessStatus::PartialContent)
    } else if status == 301 {
        XmlHttpRequestOk::XmlHttpRequestRedirect(XmlHttpRequestRedirectStatus::MovedPermanently(url))
    } else if status == 302 {
        XmlHttpRequestOk::XmlHttpRequestRedirect(XmlHttpRequestRedirectStatus::Found(url))
    } else if status == 303 {
        XmlHttpRequestOk::XmlHttpRequestRedirect(XmlHttpRequestRedirectStatus::SeeOther(url))
    } else if status == 304 {
        XmlHttpRequestOk::XmlHttpRequestRedirect(XmlHttpRequestRedirectStatus::NotModified)
    } else if status == 307 {
        XmlHttpRequestOk::XmlHttpRequestRedirect(XmlHttpRequestRedirectStatus::TemporaryRedirect(url))
    } else if status == 308 {
        XmlHttpRequestOk::XmlHttpRequestRedirect(XmlHttpRequestRedirectStatus::PermanentRedirect(url))
    } else {
        XmlHttpRequestOk::Other(status, url)
    }
}

/// The error-shaped outcome the table assigns to `status`.
pub open spec fn spec_err_from_status(status: u16) -> XmlHttpRequestErr {
    if status == 400 {
        XmlHttpRequestErr::XmlHttpRequestClientError(XmlHttpRequestClientErrorStatus::BadRequest)
    } else if status == 401 {
        XmlHttpRequestErr::XmlHttpRequestClientError(XmlHttpRequestClientErrorStatus::Unauthorized)
    } else if status == 403 {
        XmlHttpRequestErr::XmlHttpRequestClientError(XmlHttpRequestClientErrorStatus::Forbidden)
    } else if status == 404 {
        XmlHttpRequestErr::XmlHttpRequestClientError(XmlHttpRequestClientErrorStatus::NotFound)
    } else if status == 405 {
        XmlHttpRequestErr::XmlHttpRequestClientError(XmlHttpRequestClientErrorStatus::MethodNotAllowed)
    } else if status == 406 {
        XmlHttpRequestErr::XmlHttpRequestClientError(XmlHttpRequestClientErrorStatus::NotAcceptable)
    } else if status == 500 {
        XmlHttpRequestErr::XmlHttpRequestServerError(XmlHttpRequestServerErrorStatus::InternalServerError)
    } else if status == 501 {
        XmlHttpRequestErr::XmlHttpRequestServerError(XmlHttpRequestServerErrorStatus::NotImplemented)
    } else if status == 502 {
        XmlHttpRequestErr::XmlHttpRequestServerError(XmlHttpRequestServerErrorStatus::BadGateway)
    } else if status == 503 {
        XmlHttpRequestErr::XmlHttpRequestServerError(XmlHttpRequestServerErrorStatus::ServiceNotAvailable)
    } else {
        XmlHttpRequestErr::Other(status)
    }
}

/// The full classification: error-shaped at and above 400, success-shaped
/// below.
pub open spec fn spec_classify(status: u16, url: Option<String>) -> Result<
    XmlHttpRequestOk,
    XmlHttpRequestErr,
> {
    if status >= 400 {
        Err(spec_err_from_status(status))
    } else {
        Ok(spec_ok_from_status(status, url))
    }
}

impl XmlHttpRequestOk {
    /// The success-shaped outcome for `status`, carrying `url` as the
    /// redirect location where the table calls for one.
    pub fn from_status(status: u16, url: Option<String>) -> (r: XmlHttpRequestOk)
        ensures
            r == spec_ok_from_status(status, url),
    {
        match status {
            200 => XmlHttpRequestOk::XmlHttpRequestSuccess(XmlHttpRequestSuccessStatus::OK),
            201 => XmlHttpRequestOk::XmlHttpRequestSuccess(XmlHttpRequestSuccessStatus::Created),
            204 => XmlHttpRequestOk::XmlHttpRequestSuccess(XmlHttpRequestSuccessStatus::NoContent),
            206 => XmlHttpRequestOk::XmlHttpRequestSuccess(
                XmlHttpRequestSuccessStatus::PartialContent,
            ),
            301 => XmlHttpRequestOk::XmlHttpRequestRedirect(
                XmlHttpRequestRedirectStatus::MovedPermanently(url),
            ),
            302 => XmlHttpRequestOk::XmlHttpRequestRedirect(XmlHttpRequestRedirectStatus::Found(url)),
            303 => XmlHttpRequestOk::XmlHttpRequestRedirect(
                XmlHttpRequestRedirectStatus::SeeOther(url),
            ),
            304 => XmlHttpRequestOk::XmlHttpRequestRedirect(XmlHttpRequestRedirectStatus::NotModified),
            307 => XmlHttpRequestOk::XmlHttpRequestRedirect(
                XmlHttpRequestRedirectStatus::TemporaryRedirect(url),
            ),
            308 => XmlHttpRequestOk::XmlHttpRequestRedirect(
                XmlHttpRequestRedirectStatus::PermanentRedirect(url),
            ),
            _ => XmlHttpRequestOk::Other(status, url),
        }
    }
}

impl XmlHttpRequestErr {
    /// The error-shaped outcome for `status`.
    pub fn from_status(status: u16) -> (r: XmlHttpRequestErr)
        ensures
            r == spec_err_from_status(status),
    {
        match status {
            400 => XmlHttpRequestErr::XmlHttpRequestClientError(
                XmlHttpRequestClientErrorStatus::BadRequest,
            ),
            401 => XmlHttpRequestErr::XmlHttpRequestClientError(
                XmlHttpRequestClientErrorStatus::Unauthorized,
            ),
            403 => XmlHttpRequestErr::XmlHttpRequestClientError(
                XmlHttpRequestClientErrorStatus::Forbidden,
            ),
            404 => XmlHttpRequestErr::XmlHttpRequestClientError(
                XmlHttpRequestClientErrorStatus::NotFound,
            ),
            405 => XmlHttpRequestErr::XmlHttpRequestClientError(
                XmlHttpRequestClientErrorStatus::MethodNotAllowed,
            ),
            406 => XmlHttpRequestErr::XmlHttpRequestClientError(
                XmlHttpRequestClientErrorStatus::NotAcceptable,
            ),
            500 => XmlHttpRequestErr::XmlHttpRequestServerError(
                XmlHttpRequestServerErrorStatus::InternalServerError,
            ),
            501 => XmlHttpRequestErr::XmlHttpRequestServerError(
                XmlHttpRequestServerErrorStatus::NotImplemented,
            ),
            502 => XmlHttpRequestErr::XmlHttpRequestServerError(
                XmlHttpRequestServerErrorStatus::BadGateway,
            ),
            503 => XmlHttpRequestErr::XmlHttpRequestServerError(
                XmlHttpRequestServerErrorStatus::ServiceNotAvailable,
            ),
            _ => XmlHttpRequestErr::Other(status),
        }
    }
}

/// Classifies a completion status. Codes of 400 and above are error-shaped,
/// codes below 400 are success-shaped; `url` is the redirect location the
/// host reported for the response, if any.
pub fn classify(status: u16, url: Option<String>) -> (r: Result<XmlHttpRequestOk, XmlHttpRequestErr>)
    ensures
        r == spec_classify(status, url),
{
    if status >= 400 {
        Err(XmlHttpRequestErr::from_status(status))
    } else {
        Ok(XmlHttpRequestOk::from_status(status, url))
    }
}

/// Law: classification follows the status table exactly. Every named code
/// yields its named variant; every other code yields the `Other` variant on
/// the side of the 400 boundary the code falls on.
pub proof fn lemma_classify_table(status: u16, url: Option<String>)
    ensures
        spec_classify(status, url) is Err <==> status >= 400,
        status == 200 ==> spec_classify(status, url) == Ok::<XmlHttpRequestOk, XmlHttpRequestErr>(
            XmlHttpRequestOk::XmlHttpRequestSuccess(XmlHttpRequestSuccessStatus::OK),
        ),
        status == 201 ==> spec_classify(status, url) == Ok::<XmlHttpRequestOk, XmlHttpRequestErr>(
            XmlHttpRequestOk::XmlHttpRequestSuccess(XmlHttpRequestSuccessStatus::Created),
        ),
        status == 204 ==> spec_classify(status, url) == Ok::<XmlHttpRequestOk, XmlHttpRequestErr>(
            XmlHttpRequestOk::XmlHttpRequestSuccess(XmlHttpRequestSuccessStatus::NoContent),
        ),
        status == 206 ==> spec_classify(status, url) == Ok::<XmlHttpRequestOk, XmlHttpRequestErr>(
            XmlHttpRequestOk::XmlHttpRequestSuccess(XmlHttpRequestSuccessStatus::PartialContent),
        ),
        status == 301 ==> spec_classify(status, url) == Ok::<XmlHttpRequestOk, XmlHttpRequestErr>(
            XmlHttpRequestOk::XmlHttpRequestRedirect(
                XmlHttpRequestRedirectStatus::MovedPermanently(url),
            ),
        ),
        status == 302 ==> spec_classify(status, url) == Ok::<XmlHttpRequestOk, XmlHttpRequestErr>(
            XmlHttpRequestOk::XmlHttpRequestRedirect(XmlHttpRequestRedirectStatus::Found(url)),
        ),
        status == 303 ==> spec_classify(status, url) == Ok::<XmlHttpRequestOk, XmlHttpRequestErr>(
            XmlHttpRequestOk::XmlHttpRequestRedirect(XmlHttpRequestRedirectStatus::SeeOther(url)),
        ),
        status == 304 ==> spec_classify(status, url) == Ok::<XmlHttpRequestOk, XmlHttpRequestErr>(
            XmlHttpRequestOk::XmlHttpRequestRedirect(XmlHttpRequestRedirectStatus::NotModified),
        ),
        status == 307 ==> spec_classify(status, url) == Ok::<XmlHttpRequestOk, XmlHttpRequestErr>(
            XmlHttpRequestOk::XmlHttpRequestRedirect(
                XmlHttpRequestRedirectStatus::TemporaryRedirect(url),
            ),
        ),
        status == 308 ==> spec_classify(status, url) == Ok::<XmlHttpRequestOk, XmlHttpRequestErr>(
            XmlHttpRequestOk::XmlHttpRequestRedirect(
                XmlHttpRequestRedirectStatus::PermanentRedirect(url),
            ),
        ),
        status == 400 ==> spec_classify(status, url) == Err::<XmlHttpRequestOk, XmlHttpRequestErr>(
            XmlHttpRequestErr::XmlHttpRequestClientError(XmlHttpRequestClientErrorStatus::BadRequest),
        ),
        status == 401 ==> spec_classify(status, url) == Err::<XmlHttpRequestOk, XmlHttpRequestErr>(
            XmlHttpRequestErr::XmlHttpRequestClientError(
                XmlHttpRequestClientErrorStatus::Unauthorized,
            ),
        ),
        status == 403 ==> spec_classify(status, url) == Err::<XmlHttpRequestOk, XmlHttpRequestErr>(
            XmlHttpRequestErr::XmlHttpRequestClientError(XmlHttpRequestClientErrorStatus::Forbidden),
        ),
        status == 404 ==> spec_classify(status, url) == Err::<XmlHttpRequestOk, XmlHttpRequestErr>(
            XmlHttpRequestErr::XmlHttpRequestClientError(XmlHttpRequestClientErrorStatus::NotFound),
        ),
        status == 405 ==> spec_classify(status, url) == Err::<XmlHttpRequestOk, XmlHttpRequestErr>(
            XmlHttpRequestErr::XmlHttpRequestClientError(
                XmlHttpRequestClientErrorStatus::MethodNotAllowed,
            ),
        ),
        status == 406 ==> spec_classify(status, url) == Err::<XmlHttpRequestOk, XmlHttpRequestErr>(
            XmlHttpRequestErr::XmlHttpRequestClientError(
                XmlHttpRequestClientErrorStatus::NotAcceptable,
            ),
        ),
        status == 500 ==> spec_classify(status, url) == Err::<XmlHttpRequestOk, XmlHttpRequestErr>(
            XmlHttpRequestErr::XmlHttpRequestServerError(
                XmlHttpRequestServerErrorStatus::InternalServerError,
            ),
        ),
        status == 501 ==> spec_classify(status, url) == Err::<XmlHttpRequestOk, XmlHttpRequestErr>(
            XmlHttpRequestErr::XmlHttpRequestServerError(
                XmlHttpRequestServerErrorStatus::NotImplemented,
            ),
        ),
        status == 502 ==> spec_classify(status, url) == Err::<XmlHttpRequestOk, XmlHttpRequestErr>(
            XmlHttpRequestErr::XmlHttpRequestServerError(XmlHttpRequestServerErrorStatus::BadGateway),
        ),
        status == 503 ==> spec_classify(status, url) == Err::<XmlHttpRequestOk, XmlHttpRequestErr>(
            XmlHttpRequestErr::XmlHttpRequestServerError(
                XmlHttpRequestServerErrorStatus::ServiceNotAvailable,
            ),
        ),
        !spec_status_is_named(status) && status < 400 ==> spec_classify(status, url) == Ok::<
            XmlHttpRequestOk,
            XmlHttpRequestErr,
        >(XmlHttpRequestOk::Other(status, url)),
        !spec_status_is_named(status) && status >= 400 ==> spec_classify(status, url) == Err::<
            XmlHttpRequestOk,
            XmlHttpRequestErr,
        >(XmlHttpRequestErr::Other(status)),
{
}

/// True of the codes the table names.
pub open spec fn spec_status_is_named(status: u16) -> bool {
    ||| status == 200
    ||| status == 201
    ||| status == 204
    ||| status == 206
    ||| status == 301
    ||| status == 302
    ||| status == 303
    ||| status == 304
    ||| status == 307
    ||| status == 308
    ||| status == 400
    ||| status == 401
    ||| status == 403
    ||| status == 404
    ||| status == 405
    ||| status == 406
    ||| status == 500
    ||| status == 501
    ||| status == 502
    ||| status == 503
}

} // verus!
