use forge::http_error::HttpError;
use forge::http_status::HttpStatus;
use forge::response::{IntoResponse, Response};

#[test]
fn test_response_into_response() {
    let response: Response = Response::new(HttpStatus::Okay).text("TEXT");
    let result: Response = response.into_response();

    assert_eq!(result.status, HttpStatus::Okay);
    assert_eq!(result.body.unwrap(), "TEXT");
}

#[test]
fn test_http_error_conversion_via_into() {
    let error: HttpError = HttpError::new(HttpStatus::NotFound, "NOT_FOUND");
    let response: Response = error.into();

    assert_eq!(response.status, HttpStatus::NotFound);
    assert_eq!(response.body.unwrap(), "NOT_FOUND");
}

#[test]
fn test_json_response_success() {
    let mut user = serde_json::Map::new();
    user.insert("name".to_string(), serde_json::Value::String("John Doe".to_string()));
    user.insert("age".to_string(), serde_json::Value::from(18));
    let user = serde_json::Value::Object(user);

    let serialized = serde_json::to_string(&user).map_err(|e| e.to_string());
    let response: Response = Response::new(HttpStatus::Okay).json(serialized);

    assert_eq!(response.status, HttpStatus::Okay);
    assert_eq!(response.body.unwrap(), r#"{"age":18,"name":"John Doe"}"#);
}

#[test]
fn test_handler_returning_only_response() {
    fn mock_success_handler() -> Response {
        Response::new(HttpStatus::Okay).text("SUCCESS")
    }

    fn mock_error_handler_converted() -> Response {
        HttpError::new(HttpStatus::Unauthorized, "UNAUTHORIZED").into()
    }

    let success: Response = mock_success_handler();
    assert_eq!(success.status, HttpStatus::Okay);
    assert_eq!(success.body.unwrap(), "SUCCESS");

    let error_response: Response = mock_error_handler_converted();
    assert_eq!(error_response.status, HttpStatus::Unauthorized);
    assert_eq!(error_response.body.unwrap(), "UNAUTHORIZED");
}

#[test]
fn test_head_text_exact() {
    let response: Response = Response::new(HttpStatus::Okay).text("hi");
    let head: String = response.head_text();
    assert_eq!(
        head,
        "HTTP/1.1 200 OK\r\nContent-Type: text/plain\r\nContent-Length: 2\r\n\r\n"
    );
}

#[test]
fn test_write_head_to_vec_appends_bytes() {
    let response: Response = Response::new(HttpStatus::NotFound);
    let mut buffer: Vec<u8> = vec![1, 2];
    let outcome = response.write_head_to_vec(&mut buffer);
    assert!(outcome.is_ok());
    let mut expected: Vec<u8> = vec![1, 2];
    expected.extend_from_slice(b"HTTP/1.1 404 Not Found\r\nContent-Length: 0\r\n\r\n");
    assert_eq!(buffer, expected);
}

#[test]
fn test_json_failure_turns_into_server_error() {
    let response: Response =
        Response::new(HttpStatus::Okay).json(Err("boom".to_string()));
    assert_eq!(response.status, HttpStatus::InternalServerError);
    assert_eq!(response.body.unwrap(), "JSON Serialization Failed: boom");
    assert!(response.headers.is_empty());
}

#[test]
fn test_http_error_display_text() {
    let error: HttpError = HttpError::new(HttpStatus::InternalServerError, "kaput");
    assert_eq!(error.display_text(), "[500] Internal Server Error: kaput");
}
