use vstd::prelude::*;

verus! {

/// HTTP status sent to a client whose request was refused for want of authentication
/// or for a failed login.
pub const STATUS_FORBIDDEN: u16 = 403;

/// HTTP status sent to a client whose request named something that is not there.
pub const STATUS_BAD_REQUEST: u16 = 400;

/// HTTP status of a response that carries a service error before it is mapped.
pub const STATUS_INTERNAL_SERVER_ERROR: u16 = 500;

/// Errors of the service, as the server sees them.
#[derive(Debug, Clone, Copy, PartialEq, Eq, Structural)]
pub enum Error {
    LoginFail,

    // --- Auth errors
    AuthFailNoAuthTokenCookie,
    AuthFailTokenWrongFormat,
    AuthFailAppCtxNotInRequestExt,

    // --- Model errors
    TicketDeleteFailedIdNotFound { id: u64 },
}

/// Errors as a client sees them: the server never shows its own errors to clients.
#[derive(Debug, Clone, Copy, PartialEq, Eq, Structural)]
#[allow(non_camel_case_types)]
pub enum ClientError {
    LOGIN_FAIL,
    NO_AUTH,
    INVALID_PARAMS,
    SERVICE_ERROR,
}

/// The decimal digit `d` (below ten) as a character.
pub open spec fn digit_char(d: nat) -> char {
    if d == 0 { '0' }
    else if d == 1 { '1' }
    else if d == 2 { '2' }
    else if d == 3 { '3' }
    else if d == 4 { '4' }
    else if d == 5 { '5' }
    else if d == 6 { '6' }
    else if d == 7 { '7' }
    else if d == 8 { '8' }
    else { '9' }
}

/// The decimal notation of `n`, without leading zeros.
pub open spec fn decimal(n: nat) -> Seq<char>
    decreases n,
{
    if n < 10 {
        seq![digit_char(n)]
    } else {
        decimal(n / 10).push(digit_char(n % 10))
    }
}

fn digit_str(d: u128) -> (s: &'static str)
    requires
        d < 10,
    ensures
        s@ == seq![digit_char(d as nat)],
{
    proof {
        reveal_strlit("0");
        reveal_strlit("1");
        reveal_strlit("2");
        reveal_strlit("3");
        reveal_strlit("4");
        reveal_strlit("5");
        reveal_strlit("6");
        reveal_strlit("7");
        reveal_strlit("8");
        reveal_strlit("9");
    }
    if d == 0 { "0" }
    else if d == 1 { "1" }
    else if d == 2 { "2" }
    else if d == 3 { "3" }
    else if d == 4 { "4" }
    else if d == 5 { "5" }
    else if d == 6 { "6" }
    else if d == 7 { "7" }
    else if d == 8 { "8" }
    else { "9" }
}

/// The decimal notation of `n` as a string.
pub fn decimal_string(n: u128) -> (s: String)
    ensures
        s@ == decimal(n as nat),
    decreases n,
{
    if n < 10 {
        String::from_str(digit_str(n))
    } else {
        let mut s = decimal_string(n / 10);
        s.append(digit_str(n % 10));
        s
    }
}

impl Error {
    /// The variant's name.
    pub open spec fn spec_name(&self) -> Seq<char> {
        match self {
            Error::LoginFail => "LoginFail"@,
            Error::AuthFailNoAuthTokenCookie => "AuthFailNoAuthTokenCookie"@,
            Error::AuthFailTokenWrongFormat => "AuthFailTokenWrongFormat"@,
            Error::AuthFailAppCtxNotInRequestExt => "AuthFailAppCtxNotInRequestExt"@,
            Error::TicketDeleteFailedIdNotFound { .. } => "TicketDeleteFailedIdNotFound"@,
        }
    }

    /// The error as the server writes it out: its name, and the fields of a variant
    /// that has some.
    pub open spec fn spec_text(&self) -> Seq<char> {
        match self {
            Error::TicketDeleteFailedIdNotFound { id } =>
                "TicketDeleteFailedIdNotFound { id: "@ + decimal(*id as nat) + " }"@,
            _ => self.spec_name(),
        }
    }

    /// The status and client error that a client is shown for this error.
    pub open spec fn spec_client_status_and_error(&self) -> (u16, ClientError) {
        match self {
            Error::AuthFailAppCtxNotInRequestExt
            | Error::AuthFailNoAuthTokenCookie
            | Error::AuthFailTokenWrongFormat => (STATUS_FORBIDDEN, ClientError::NO_AUTH),
            Error::TicketDeleteFailedIdNotFound { .. } => (STATUS_BAD_REQUEST, ClientError::INVALID_PARAMS),
            Error::LoginFail => (STATUS_FORBIDDEN, ClientError::LOGIN_FAIL),
        }
    }

    /// The variant's name.
    pub fn as_ref(&self) -> (s: &'static str)
        ensures
            s@ == self.spec_name(),
    {
        match self {
            Error::LoginFail => "LoginFail",
            Error::AuthFailNoAuthTokenCookie => "AuthFailNoAuthTokenCookie",
            Error::AuthFailTokenWrongFormat => "AuthFailTokenWrongFormat",
            Error::AuthFailAppCtxNotInRequestExt => "AuthFailAppCtxNotInRequestExt",
            Error::TicketDeleteFailedIdNotFound { .. } => "TicketDeleteFailedIdNotFound",
        }
    }

    /// The error as the server writes it out, e.g. `TicketDeleteFailedIdNotFound { id: 1 }`.
    pub fn to_string(&self) -> (s: String)
        ensures
            s@ == self.spec_text(),
    {
        match self {
            Error::TicketDeleteFailedIdNotFound { id } => {
                let mut s = String::from_str("TicketDeleteFailedIdNotFound { id: ");
                let digits = decimal_string(*id as u128);
                s.append(digits.as_str());
                s.append(" }");
                s
            },
            _ => String::from_str(self.as_ref()),
        }
    }

    /// The HTTP status and the client error that a client is shown for this error.
    pub fn client_status_and_error(&self) -> (r: (u16, ClientError))
        ensures
            r == self.spec_client_status_and_error(),
            match self {
                Error::TicketDeleteFailedIdNotFound { .. } => r == (400u16, ClientError::INVALID_PARAMS),
                Error::LoginFail => r == (403u16, ClientError::LOGIN_FAIL),
                _ => r == (403u16, ClientError::NO_AUTH),
            },
    {
        match self {
            Error::AuthFailAppCtxNotInRequestExt
            | Error::AuthFailNoAuthTokenCookie
            | Error::AuthFailTokenWrongFormat => (STATUS_FORBIDDEN, ClientError::NO_AUTH),
            Error::TicketDeleteFailedIdNotFound { .. } => (STATUS_BAD_REQUEST, ClientError::INVALID_PARAMS),
            Error::LoginFail => (STATUS_FORBIDDEN, ClientError::LOGIN_FAIL),
        }
    }
}

impl ClientError {
    /// The variant's name.
    pub open spec fn spec_name(&self) -> Seq<char> {
        match self {
            ClientError::LOGIN_FAIL => "LOGIN_FAIL"@,
            ClientError::NO_AUTH => "NO_AUTH"@,
            ClientError::INVALID_PARAMS => "INVALID_PARAMS"@,
            ClientError::SERVICE_ERROR => "SERVICE_ERROR"@,
        }
    }

    /// The variant's name.
    pub fn as_ref(&self) -> (s: &'static str)
        ensures
            s@ == self.spec_name(),
    {
        match self {
            ClientError::LOGIN_FAIL => "LOGIN_FAIL",
            ClientError::NO_AUTH => "NO_AUTH",
            ClientError::INVALID_PARAMS => "INVALID_PARAMS",
            ClientError::SERVICE_ERROR => "SERVICE_ERROR",
        }
    }
}

/// What a client is shown depends only on the kind of error: a missing ticket, whatever
/// its number, is a bad request with invalid parameters; a failed login is forbidden
/// as a login failure; every authentication failure is forbidden for want of
/// authentication. No mapped error is shown as a service error.
pub proof fn law_client_status_and_error(e: Error)
    ensures
        e is TicketDeleteFailedIdNotFound ==> e.spec_client_status_and_error() == (400u16, ClientError::INVALID_PARAMS),
        e is LoginFail ==> e.spec_client_status_and_error() == (403u16, ClientError::LOGIN_FAIL),
        (e is AuthFailNoAuthTokenCookie || e is AuthFailTokenWrongFormat || e is AuthFailAppCtxNotInRequestExt)
            ==> e.spec_client_status_and_error() == (403u16, ClientError::NO_AUTH),
        e.spec_client_status_and_error().1 != ClientError::SERVICE_ERROR,
{
}

/// Two missing tickets are shown to clients alike, whatever their numbers.
pub proof fn law_client_view_ignores_ticket_number(a: u64, b: u64)
    ensures
        (Error::TicketDeleteFailedIdNotFound { id: a }).spec_client_status_and_error()
            == (Error::TicketDeleteFailedIdNotFound { id: b }).spec_client_status_and_error(),
{
}

/// Different kinds of error have different names, and so do different client errors.
pub proof fn law_names_tell_kinds_apart(a: Error, b: Error, c: ClientError, d: ClientError)
    ensures
        a.spec_name() == b.spec_name() ==> {
            &&& (a is LoginFail <==> b is LoginFail)
            &&& (a is AuthFailNoAuthTokenCookie <==> b is AuthFailNoAuthTokenCookie)
            &&& (a is AuthFailTokenWrongFormat <==> b is AuthFailTokenWrongFormat)
            &&& (a is AuthFailAppCtxNotInRequestExt <==> b is AuthFailAppCtxNotInRequestExt)
            &&& (a is TicketDeleteFailedIdNotFound <==> b is TicketDeleteFailedIdNotFound)
        },
        c.spec_name() == d.spec_name() ==> c == d,
{
    reveal_strlit("LoginFail");
    reveal_strlit("AuthFailNoAuthTokenCookie");
    reveal_strlit("AuthFailTokenWrongFormat");
    reveal_strlit("AuthFailAppCtxNotInRequestExt");
    reveal_strlit("TicketDeleteFailedIdNotFound");
    reveal_strlit("LOGIN_FAIL");
    reveal_strlit("NO_AUTH");
    reveal_strlit("INVALID_PARAMS");
    reveal_strlit("SERVICE_ERROR");
    assert("LoginFail"@.len() == 9);
    assert("AuthFailNoAuthTokenCookie"@.len() == 25);
    assert("AuthFailTokenWrongFormat"@.len() == 24);
    assert("AuthFailAppCtxNotInRequestExt"@.len() == 29);
    assert("TicketDeleteFailedIdNotFound"@.len() == 28);
    assert("LOGIN_FAIL"@.len() == 10);
    assert("NO_AUTH"@.len() == 7);
    assert("INVALID_PARAMS"@.len() == 14);
    assert("SERVICE_ERROR"@.len() == 13);
    if a.spec_name() == b.spec_name() {
        assert(a.spec_name().len() == b.spec_name().len());
    }
    if c.spec_name() == d.spec_name() {
        assert(c.spec_name().len() == d.spec_name().len());
    }
}

/// The written form of an error begins with its name; an error without fields is
/// written as its name alone, and a missing ticket's number follows in decimal.
pub proof fn law_text_begins_with_name(e: Error)
    ensures
        e.spec_text().take(e.spec_name().len() as int) == e.spec_name(),
        !(e is TicketDeleteFailedIdNotFound) ==> e.spec_text() == e.spec_name(),
        e matches Error::TicketDeleteFailedIdNotFound { id } ==> e.spec_text() == e.spec_name() + " { id: "@ + decimal(id as nat) + " }"@,
{
    reveal_strlit("TicketDeleteFailedIdNotFound { id: ");
    reveal_strlit("TicketDeleteFailedIdNotFound");
    reveal_strlit(" { id: ");
    if e is TicketDeleteFailedIdNotFound {
        let id = e->id;
        assert("TicketDeleteFailedIdNotFound { id: "@ =~= "TicketDeleteFailedIdNotFound"@ + " { id: "@);
        assert(e.spec_text().take(e.spec_name().len() as int) =~= e.spec_name());
    } else {
        assert(e.spec_text().take(e.spec_name().len() as int) =~= e.spec_name());
    }
}

} // verus!
