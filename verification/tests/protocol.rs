use scr_axum_cranker_router::cranker_protocol::{
    CrankerProtocolVersionNotFoundException, CrankerProtocolVersionNotSupportedException,
};
use scr_axum_cranker_router::cranker_protocol_response::CrankerProtocolResponse;
use scr_axum_cranker_router::time_utils::current_time_millis;

#[test]
fn test_error() {
    let ex = CrankerProtocolVersionNotSupportedException::new(String::from("v1.0"));
    println!("{}", ex.to_string());
    assert_eq!(ex.to_string(), "Cranker version v1.0 not supported!")
}

#[test]
fn missing_version_has_its_message() {
    assert_eq!(
        CrankerProtocolVersionNotFoundException::new().to_string(),
        "Version is null. Please set header Sec-WebSocket-Protocol for cranker protocol negotiation"
    );
}

#[test]
fn test_parse() {
    let msg = ["HTTP/1.1 200 OK", "User-Agent: curl/8.0"].join("\n");
    let res = CrankerProtocolResponse::new(msg);
    assert!(res.is_ok());
    let res = res.unwrap();
    assert_eq!(res.status, 200);
    assert_eq!(res.headers.len(), 1);
}

#[test]
fn test_parse_long() {
    let msg = "HTTP/1.1 302 TODO \n
content-length:10 \n
content-type:text/plain \n
date:Fri, 05 Jan 2024 16:29:44 GMT \n
location:/history"
        .to_string();
    let res = CrankerProtocolResponse::new(msg.clone());
    assert!(res.is_ok());
    let res = res.unwrap();
    assert_eq!(res.status, 302);
    assert_eq!(res.headers.len(), 4);
}

#[test]
fn test_current_time_millis() {
    assert!(current_time_millis() < i64::MAX)
}
