use streamhub::define::BroadcastEvent;
use streamhub::relay::{relay_intent, RelayConfig, RelayIntent};
use streamhub::stream::StreamIdentifier;

fn id() -> StreamIdentifier {
    StreamIdentifier::Rtmp { app_name: "live".to_string(), stream_name: "r".to_string() }
}

#[test]
fn subscribe_for_absent_stream_pulls() {
    let cfg = RelayConfig { pull_enabled: true, push_enabled: false };
    match relay_intent(cfg, &BroadcastEvent::Subscribe { identifier: id() }) {
        Some(RelayIntent::StartPull { identifier }) => assert!(identifier == id()),
        _ => panic!("expected a pull"),
    }
    assert!(matches!(
        relay_intent(cfg, &BroadcastEvent::UnSubscribe { identifier: id() }),
        Some(RelayIntent::StopPull { .. })
    ));
    assert!(relay_intent(cfg, &BroadcastEvent::Publish { identifier: id() }).is_none());
}

#[test]
fn publish_pushes_when_enabled() {
    let cfg = RelayConfig { pull_enabled: false, push_enabled: true };
    assert!(matches!(
        relay_intent(cfg, &BroadcastEvent::Publish { identifier: id() }),
        Some(RelayIntent::StartPush { .. })
    ));
    assert!(matches!(
        relay_intent(cfg, &BroadcastEvent::UnPublish { identifier: id() }),
        Some(RelayIntent::StopPush { .. })
    ));
    assert!(relay_intent(cfg, &BroadcastEvent::Subscribe { identifier: id() }).is_none());
}
