use ticket_api::error::{
    decimal_string, STATUS_BAD_REQUEST, STATUS_FORBIDDEN, STATUS_INTERNAL_SERVER_ERROR,
};
use ticket_api::{AppCtx, ClientError, Error};

#[test]
fn app_ctx_keeps_user_id() {
    assert_eq!(AppCtx::new(0).user_id(), 0);
    assert_eq!(AppCtx::new(u64::MAX).user_id(), u64::MAX);
}

#[test]
fn error_names() {
    assert_eq!(Error::LoginFail.as_ref(), "LoginFail");
    assert_eq!(Error::AuthFailNoAuthTokenCookie.as_ref(), "AuthFailNoAuthTokenCookie");
    assert_eq!(Error::AuthFailTokenWrongFormat.as_ref(), "AuthFailTokenWrongFormat");
    assert_eq!(Error::AuthFailAppCtxNotInRequestExt.as_ref(), "AuthFailAppCtxNotInRequestExt");
    assert_eq!(Error::TicketDeleteFailedIdNotFound { id: 3 }.as_ref(), "TicketDeleteFailedIdNotFound");
}

#[test]
fn error_text_is_debug_form() {
    for e in [
        Error::LoginFail,
        Error::AuthFailNoAuthTokenCookie,
        Error::AuthFailTokenWrongFormat,
        Error::AuthFailAppCtxNotInRequestExt,
        Error::TicketDeleteFailedIdNotFound { id: 0 },
        Error::TicketDeleteFailedIdNotFound { id: 1 },
        Error::TicketDeleteFailedIdNotFound { id: 1234567890 },
        Error::TicketDeleteFailedIdNotFound { id: u64::MAX },
    ] {
        assert_eq!(e.to_string(), format!("{e:?}"));
    }
    assert_eq!(Error::TicketDeleteFailedIdNotFound { id: 1 }.to_string(), "TicketDeleteFailedIdNotFound { id: 1 }");
}

#[test]
fn client_status_and_error_per_variant() {
    assert_eq!(Error::LoginFail.client_status_and_error(), (403, ClientError::LOGIN_FAIL));
    assert_eq!(Error::AuthFailNoAuthTokenCookie.client_status_and_error(), (403, ClientError::NO_AUTH));
    assert_eq!(Error::AuthFailTokenWrongFormat.client_status_and_error(), (403, ClientError::NO_AUTH));
    assert_eq!(Error::AuthFailAppCtxNotInRequestExt.client_status_and_error(), (403, ClientError::NO_AUTH));
    assert_eq!(
        Error::TicketDeleteFailedIdNotFound { id: 9 }.client_status_and_error(),
        (400, ClientError::INVALID_PARAMS)
    );
    assert_eq!((STATUS_FORBIDDEN, STATUS_BAD_REQUEST, STATUS_INTERNAL_SERVER_ERROR), (403, 400, 500));
}

#[test]
fn client_error_names() {
    assert_eq!(ClientError::LOGIN_FAIL.as_ref(), "LOGIN_FAIL");
    assert_eq!(ClientError::NO_AUTH.as_ref(), "NO_AUTH");
    assert_eq!(ClientError::INVALID_PARAMS.as_ref(), "INVALID_PARAMS");
    assert_eq!(ClientError::SERVICE_ERROR.as_ref(), "SERVICE_ERROR");
}

#[test]
fn decimal_notation() {
    for n in [0u128, 7, 10, 99, 100, 12345, u64::MAX as u128, u128::MAX] {
        assert_eq!(decimal_string(n), n.to_string());
    }
}
