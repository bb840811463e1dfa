use starknet_graph::errors::AppError;

#[test]
fn errors_display_their_kind_and_detail() {
    assert_eq!(AppError::RpcError("down".to_string()).message(), "RPC error: down");
    assert_eq!(AppError::InvalidAddress("0x1".to_string()).message(), "Invalid address: 0x1");
    assert_eq!(AppError::NotFound("tx".to_string()).message(), "Not found: tx");
    assert_eq!(AppError::ServerError("boom".to_string()).message(), "Server error: boom");
}

#[test]
fn errors_map_to_http_statuses() {
    assert_eq!(AppError::InvalidAddress(String::new()).status_code(), 400);
    assert_eq!(AppError::NotFound(String::new()).status_code(), 404);
    assert_eq!(AppError::RpcError(String::new()).status_code(), 503);
    assert_eq!(AppError::ServerError(String::new()).status_code(), 500);
}

#[test]
fn error_response_carries_the_message() {
    let e = AppError::RpcError("No result in response".to_string());
    assert_eq!(e.error_response().error, "RPC error: No result in response");
}
