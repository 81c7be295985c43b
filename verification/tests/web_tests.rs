use ticket_api::log::{request_log_line, LogRequest};
use ticket_api::web::hello::hello_html;
use ticket_api::web::response_mapper::client_response_for;
use ticket_api::{AppCtx, ClientError, Error};

#[test]
fn hello_with_and_without_name() {
    assert_eq!(hello_html(Some("Hire me".to_string())), "Hello <strong> Hire me</strong>");
    assert_eq!(hello_html(None), "Hello <strong> stranger</strong>");
    assert_eq!(hello_html(Some(String::new())), "Hello <strong> </strong>");
}

#[test]
fn mapper_maps_service_errors_only() {
    assert_eq!(client_response_for(None), None);
    assert_eq!(client_response_for(Some(&Error::LoginFail)), Some((403, ClientError::LOGIN_FAIL)));
    assert_eq!(
        client_response_for(Some(&Error::TicketDeleteFailedIdNotFound { id: 1 })),
        Some((400, ClientError::INVALID_PARAMS))
    );
}

#[test]
fn log_line_fields() {
    let line = request_log_line(
        LogRequest {
            uuid: "u-1".to_string(),
            req_method: "DELETE".to_string(),
            uri: "/api/tickets?id=1".to_string(),
            app_ctx: Some(AppCtx::new(1)),
            service_error: Some(Error::TicketDeleteFailedIdNotFound { id: 1 }),
            client_error: Some(ClientError::INVALID_PARAMS),
        },
        1_700_000_000_123,
    );
    assert_eq!(line.uuid, "u-1");
    assert_eq!(line.timestamp, "1700000000123");
    assert_eq!(line.user_id, Some(1));
    assert_eq!(line.req_path, "/api/tickets?id=1");
    assert_eq!(line.req_method, "DELETE");
    assert_eq!(line.client_error_type.as_deref(), Some("INVALID_PARAMS"));
    assert_eq!(line.error_type.as_deref(), Some("TicketDeleteFailedIdNotFound"));
}

#[test]
fn log_line_without_context_or_errors() {
    let line = request_log_line(
        LogRequest {
            uuid: "u-2".to_string(),
            req_method: "GET".to_string(),
            uri: "/hello".to_string(),
            app_ctx: None,
            service_error: None,
            client_error: None,
        },
        0,
    );
    assert_eq!(line.timestamp, "0");
    assert_eq!(line.user_id, None);
    assert_eq!(line.client_error_type, None);
    assert_eq!(line.error_type, None);
}
