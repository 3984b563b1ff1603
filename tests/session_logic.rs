use streamhub::define::{PublishType, Uuid};
use streamhub::service::{Config, RtmpConfig, Service};
use streamhub::webrtc::{
    gen_response, get_publisher_info, route_request, whip_location, SessionErrorValue,
    WebRTCStreamHandler, WebRtcAction,
};

#[test]
fn uuid_text_is_lowercase_hex_without_dashes() {
    let u = Uuid::from_value(0x0123456789abcdef_fedcba9876543210);
    assert_eq!(u.to_string(), "0123456789abcdeffedcba9876543210");
    assert_eq!(Uuid::from_value(0).to_string(), "00000000000000000000000000000000");
    assert_eq!(Uuid::from_value(u128::MAX).to_string(), "ffffffffffffffffffffffffffffffff");
}

#[test]
fn rtmp_listen_address() {
    let s = Service::new(Config { rtmp: Some(RtmpConfig { port: 1935 }) });
    assert_eq!(s.rtmp_listen_address(), Some("0.0.0.0:1935".to_string()));
    let s = Service::new(Config { rtmp: Some(RtmpConfig { port: 0 }) });
    assert_eq!(s.rtmp_listen_address(), Some("0.0.0.0:0".to_string()));
    let s = Service::new(Config { rtmp: None });
    assert_eq!(s.rtmp_listen_address(), None);
}

#[test]
fn response_head_reason_phrases() {
    let r = gen_response(201);
    assert_eq!(r.version, "HTTP/1.1");
    assert_eq!(r.status_code, 201);
    assert_eq!(r.reason_phrase, "Created");
    assert_eq!(gen_response(503).reason_phrase, "Service Unavailable");
    assert_eq!(gen_response(99).reason_phrase, "");
    assert_eq!(gen_response(999).reason_phrase, "");
}

fn some(s: &str) -> Option<String> {
    Some(s.to_string())
}

#[test]
fn whip_post_is_routed() {
    let r = route_request("POST", "/whip", some("live"), some("test"), true, None);
    match r {
        Ok(WebRtcAction::Whip { app_name, stream_name }) => {
            assert_eq!(app_name, "live");
            assert_eq!(stream_name, "test");
        }
        _ => panic!("expected whip"),
    }
    assert!(matches!(
        route_request("POST", "/WhEp", some("live"), some("test"), true, None),
        Ok(WebRtcAction::Whep)
    ));
}

#[test]
fn request_errors() {
    assert_eq!(
        route_request("POST", "whip", some("a"), some("b"), true, None).err(),
        Some(SessionErrorValue::HttpRequestPathError)
    );
    assert_eq!(
        route_request("POST", "/whip", None, some("b"), true, None).err(),
        Some(SessionErrorValue::HttpRequestPathError)
    );
    assert_eq!(
        route_request("POST", "/whip", some("a"), some("b"), false, None).err(),
        Some(SessionErrorValue::HttpRequestEmptySdp)
    );
    assert_eq!(
        route_request("POST", "/other", some("a"), some("b"), true, None).err(),
        Some(SessionErrorValue::HttpRequestNotSupported)
    );
}

#[test]
fn other_methods_are_routed() {
    match route_request("DELETE", "/whip", some("a"), some("b"), false, some("abc")) {
        Ok(WebRtcAction::Delete { session_id }) => assert_eq!(session_id, some("abc")),
        _ => panic!("expected delete"),
    }
    assert!(matches!(
        route_request("OPTIONS", "/whip", some("a"), some("b"), false, None),
        Ok(WebRtcAction::Ignore)
    ));
    assert!(matches!(
        route_request("PATCH", "/whip", some("a"), some("b"), false, None),
        Ok(WebRtcAction::Ignore)
    ));
}

#[test]
fn publisher_info_of_whip_session() {
    let s = Uuid::from_value(5);
    let f = Uuid::from_value(6);
    let p = get_publisher_info(Some(s), f);
    assert_eq!(p.id, s);
    assert_eq!(p.pub_type, PublishType::PushWebRTC);
    assert_eq!(p.notify_info.request_url, "");
    assert_eq!(get_publisher_info(None, f).id, f);
}

#[test]
fn whip_location_text() {
    let l = whip_location("/whip", "app=live&stream=test", Uuid::from_value(1));
    assert_eq!(l, "/whip?app=live&stream=test&session_id=00000000000000000000000000000001");
}

#[test]
fn webrtc_stream_handler_new() {
    let _h = WebRTCStreamHandler::new();
}

#[test]
fn uuid_text_round_trip() {
    let u = Uuid::from_value(0x00ff00ff_12345678_9abcdef0_0000000a);
    assert_eq!(Uuid::from_text(&u.to_string()), Some(u));
    assert_eq!(Uuid::from_text("0000000000000000000000000000000a"), Some(Uuid::from_value(10)));
}

#[test]
fn uuid_text_refused() {
    assert_eq!(Uuid::from_text(""), None);
    assert_eq!(Uuid::from_text("0000000000000000000000000000000A"), None);
    assert_eq!(Uuid::from_text("00000000-0000-0000-0000-000000000000"), None);
    assert_eq!(Uuid::from_text("000000000000000000000000000000000"), None);
}
