use vstd::prelude::*;

use crate::error::Error;

verus! {

/// What a client sends to log in.
pub struct LoginPayload {
    pub username: String,
    pub password: String,
}

/// The only credentials that the service accepts.
pub open spec fn accepted_credentials(username: Seq<char>, password: Seq<char>) -> bool {
    username == "HIRE"@ && password == "ME"@
}

/// The token that a successful login hands out.
pub open spec fn issued_token() -> Seq<char> {
    "user1.expiration.signature"@
}

/// Checks the credentials of a login and returns the token to set in the
/// authentication cookie, or refuses the login.
pub fn check_login(payload: &LoginPayload) -> (r: Result<String, Error>)
    ensures
        accepted_credentials(payload.username@, payload.password@) ==> (r matches Ok(token) && token@ == issued_token()),
        !accepted_credentials(payload.username@, payload.password@) ==> r == Err::<String, Error>(Error::LoginFail),
        (payload.username@ == "HIRE"@ && payload.password@ == "ME"@)
            ==> (r matches Ok(token) && token@ == "user1.expiration.signature"@),
        !(payload.username@ == "HIRE"@ && payload.password@ == "ME"@) ==> r == Err::<String, Error>(Error::LoginFail),
{
    let hire = String::from_str("HIRE");
    let me = String::from_str("ME");
    if payload.username != hire || payload.password != me {
        return Err(Error::LoginFail);
    }
    Ok(String::from_str("user1.expiration.signature"))
}

/// Exactly one pair of credentials is accepted: `HIRE` with `ME`.
pub proof fn law_one_pair_accepted(username: Seq<char>, password: Seq<char>)
    ensures
        accepted_credentials("HIRE"@, "ME"@),
        accepted_credentials(username, password) ==> username == "HIRE"@ && password == "ME"@,
        !accepted_credentials("ME"@, "HIRE"@),
{
    reveal_strlit("HIRE");
    reveal_strlit("ME");
    assert("ME"@.len() != "HIRE"@.len());
}

} // verus!
