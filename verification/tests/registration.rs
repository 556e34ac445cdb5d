use phaneron_switcher::phaneron_ws_message::RegisterResponse;
use phaneron_switcher::registration::{
    new_register_request, register_endpoint, register_headers, socket_url, SocketUrlError,
};

#[test]
fn register_request_has_v4_uuid() {
    let request = new_register_request();
    let id: Vec<char> = request.user_id.chars().collect();
    assert_eq!(id.len(), 36);
    for (i, c) in id.iter().enumerate() {
        if i == 8 || i == 13 || i == 18 || i == 23 {
            assert_eq!(*c, '-');
        } else {
            assert!(c.is_ascii_digit() || ('a'..='f').contains(c));
        }
    }
    assert_eq!(id[14], '4');
    assert!(matches!(id[19], '8' | '9' | 'a' | 'b'));
}

#[test]
fn register_requests_differ() {
    assert_ne!(new_register_request().user_id, new_register_request().user_id);
}

#[test]
fn register_endpoint_is_local_server() {
    assert_eq!(register_endpoint(), "http://127.0.0.1:8080/register");
}

#[test]
fn register_headers_in_order() {
    let headers = register_headers();
    let pairs: Vec<(&str, &str)> = headers.iter().map(|(n, v)| (n.as_str(), v.as_str())).collect();
    assert_eq!(
        pairs,
        vec![
            ("user-agent", "PhaneronTestApp/1.0.0"),
            ("accept", "*/*"),
            ("host", "localhost:8080"),
            ("connection", "keep-alive"),
        ]
    );
}

#[test]
fn socket_url_is_normalised() {
    let response = RegisterResponse { url: "WS://LocalHost:8080".to_string() };
    assert_eq!(socket_url(&response).unwrap(), "ws://localhost:8080/");
}

#[test]
fn socket_url_keeps_path() {
    let response = RegisterResponse { url: "ws://127.0.0.1:8080/ws/abc".to_string() };
    assert_eq!(socket_url(&response).unwrap(), "ws://127.0.0.1:8080/ws/abc");
}

#[test]
fn socket_url_refuses_relative_url() {
    let response = RegisterResponse { url: "/ws/abc".to_string() };
    match socket_url(&response) {
        Err(SocketUrlError::InvalidUrl(e)) => assert_eq!(e, url::ParseError::RelativeUrlWithoutBase),
        Ok(u) => panic!("unexpected url {u}"),
    }
}
