use vstd::prelude::*;

use crate::appctx::AppCtx;
use crate::error::{decimal, decimal_string, ClientError, Error};
use crate::web::opt_text;

verus! {

/// What is known of a request when its response goes out.
pub struct LogRequest {
    pub uuid: String,
    pub req_method: String,
    pub uri: String,
    pub app_ctx: Option<AppCtx>,
    pub service_error: Option<Error>,
    pub client_error: Option<ClientError>,
}

/// The server's log line for one request.
pub struct RequestLogLine {
    pub uuid: String,
    pub timestamp: String,
    pub user_id: Option<u64>,
    pub req_path: String,
    pub req_method: String,
    pub client_error_type: Option<String>,
    pub error_type: Option<String>,
}

/// The log line of `log_request`, logged at `timestamp_ms` milliseconds after the epoch.
pub fn request_log_line(log_request: LogRequest, timestamp_ms: u128) -> (line: RequestLogLine)
    ensures
        line.uuid@ == log_request.uuid@,
        line.timestamp@ == decimal(timestamp_ms as nat),
        line.req_path@ == log_request.uri@,
        line.req_method@ == log_request.req_method@,
        line.user_id == match log_request.app_ctx {
            Some(ctx) => Some(ctx.spec_user_id()),
            None => None::<u64>,
        },
        opt_text(line.client_error_type) == match log_request.client_error {
            Some(e) => Some(e.spec_name()),
            None => None::<Seq<char>>,
        },
        opt_text(line.error_type) == match log_request.service_error {
            Some(e) => Some(e.spec_name()),
            None => None::<Seq<char>>,
        },
{
    let user_id = match log_request.app_ctx {
        Some(ctx) => Some(ctx.user_id()),
        None => None,
    };
    let client_error_type = match log_request.client_error {
        Some(e) => Some(String::from_str(e.as_ref())),
        None => None,
    };
    let error_type = match log_request.service_error {
        Some(e) => Some(String::from_str(e.as_ref())),
        None => None,
    };
    RequestLogLine {
        uuid: log_request.uuid,
        timestamp: decimal_string(timestamp_ms),
        user_id,
        req_path: log_request.uri,
        req_method: log_request.req_method,
        client_error_type,
        error_type,
    }
}

} // verus!
