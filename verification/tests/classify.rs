use webplatform::classify;
use webplatform::XmlHttpRequestClientErrorStatus as C;
use webplatform::XmlHttpRequestErr as E;
use webplatform::XmlHttpRequestOk as O;
use webplatform::XmlHttpRequestRedirectStatus as R;
use webplatform::XmlHttpRequestServerErrorStatus as Sv;
use webplatform::XmlHttpRequestSuccessStatus as S;

fn loc() -> Option<String> {
    Some(String::from("http://example.test/moved"))
}

#[test]
fn classify_success_codes() {
    assert_eq!(classify(200, None), Ok(O::XmlHttpRequestSuccess(S::OK)));
    assert_eq!(classify(201, None), Ok(O::XmlHttpRequestSuccess(S::Created)));
    assert_eq!(classify(204, None), Ok(O::XmlHttpRequestSuccess(S::NoContent)));
    assert_eq!(
        classify(206, None),
        Ok(O::XmlHttpRequestSuccess(S::PartialContent))
    );
}

#[test]
fn classify_redirect_codes_carry_location() {
    assert_eq!(
        classify(301, loc()),
        Ok(O::XmlHttpRequestRedirect(R::MovedPermanently(loc())))
    );
    assert_eq!(
        classify(302, loc()),
        Ok(O::XmlHttpRequestRedirect(R::Found(loc())))
    );
    assert_eq!(
        classify(303, loc()),
        Ok(O::XmlHttpRequestRedirect(R::SeeOther(loc())))
    );
    assert_eq!(
        classify(304, loc()),
        Ok(O::XmlHttpRequestRedirect(R::NotModified))
    );
    assert_eq!(
        classify(307, loc()),
        Ok(O::XmlHttpRequestRedirect(R::TemporaryRedirect(loc())))
    );
    assert_eq!(
        classify(308, loc()),
        Ok(O::XmlHttpRequestRedirect(R::PermanentRedirect(loc())))
    );
    assert_eq!(
        classify(301, None),
        Ok(O::XmlHttpRequestRedirect(R::MovedPermanently(None)))
    );
}

#[test]
fn classify_client_error_codes() {
    assert_eq!(classify(400, None), Err(E::XmlHttpRequestClientError(C::BadRequest)));
    assert_eq!(classify(401, None), Err(E::XmlHttpRequestClientError(C::Unauthorized)));
    assert_eq!(classify(403, None), Err(E::XmlHttpRequestClientError(C::Forbidden)));
    assert_eq!(classify(404, None), Err(E::XmlHttpRequestClientError(C::NotFound)));
    assert_eq!(
        classify(405, None),
        Err(E::XmlHttpRequestClientError(C::MethodNotAllowed))
    );
    assert_eq!(
        classify(406, None),
        Err(E::XmlHttpRequestClientError(C::NotAcceptable))
    );
}

#[test]
fn classify_server_error_codes() {
    assert_eq!(
        classify(500, None),
        Err(E::XmlHttpRequestServerError(Sv::InternalServerError))
    );
    assert_eq!(
        classify(501, None),
        Err(E::XmlHttpRequestServerError(Sv::NotImplemented))
    );
    assert_eq!(classify(502, None), Err(E::XmlHttpRequestServerError(Sv::BadGateway)));
    assert_eq!(
        classify(503, None),
        Err(E::XmlHttpRequestServerError(Sv::ServiceNotAvailable))
    );
}

#[test]
fn classify_unlisted_codes_split_at_400() {
    assert_eq!(classify(0, None), Ok(O::Other(0, None)));
    assert_eq!(classify(100, loc()), Ok(O::Other(100, loc())));
    assert_eq!(classify(399, None), Ok(O::Other(399, None)));
    assert_eq!(classify(402, None), Err(E::Other(402)));
    assert_eq!(classify(418, None), Err(E::Other(418)));
    assert_eq!(classify(504, None), Err(E::Other(504)));
    assert_eq!(classify(u16::MAX, None), Err(E::Other(u16::MAX)));
}

#[test]
fn classify_error_path_status() {
    assert_eq!(
        classify(webplatform::AJAX_ERROR_STATUS, None),
        Err(E::Other(65535))
    );
}
