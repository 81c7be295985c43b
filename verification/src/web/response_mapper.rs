use vstd::prelude::*;

use crate::error::{ClientError, Error};

verus! {

/// What a response that carries `service_error` becomes for the client: the status and
/// client error of that error; a response without one is left as it is (`None`).
pub fn client_response_for(service_error: Option<&Error>) -> (r: Option<(u16, ClientError)>)
    ensures
        match service_error {
            None => r is None,
            Some(e) => r == Some(e.spec_client_status_and_error()),
        },
{
    match service_error {
        None => None,
        Some(e) => Some(e.client_status_and_error()),
    }
}

} // verus!
