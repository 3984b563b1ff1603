use streamhub::define::{
    BroadcastEvent, NotifyInfo, PubSubInfo, PublishType, PublisherInfo, SubscribeType,
    SubscriberInfo, Uuid,
};
use streamhub::hub::{Hub, HubError};
use streamhub::media::{FrameData, PriorData};
use streamhub::define::{MediaInfo, VideoCodecType};
use streamhub::stream::StreamIdentifier;
use streamhub::transmitter::{PublisherLanes, SenderKind, Transmitter, TransmitterError};

fn notify() -> NotifyInfo {
    NotifyInfo { request_url: String::new(), remote_addr: String::new() }
}

fn publisher(id: u128) -> PublisherInfo {
    PublisherInfo { id: Uuid::from_value(id), pub_type: PublishType::PushRtmp, notify_info: notify() }
}

fn subscriber(id: u128) -> SubscriberInfo {
    SubscriberInfo { id: Uuid::from_value(id), sub_type: SubscribeType::PlayerRtmp, notify_info: notify() }
}

fn rtmp(app: &str, name: &str) -> StreamIdentifier {
    StreamIdentifier::Rtmp { app_name: app.to_string(), stream_name: name.to_string() }
}

#[test]
fn single_publisher_single_subscriber() {
    let mut hub = Hub::new();
    let id = rtmp("live", "a");
    let ev = hub.publish(id.clone(), &publisher(1)).unwrap();
    assert!(matches!(ev, BroadcastEvent::Publish { identifier } if identifier == rtmp("live", "a")));
    let mut t = Transmitter::new(PublisherLanes { frame: true, packet: false });
    assert_eq!(hub.subscribe(id.clone(), subscriber(2)).is_ok(), true);
    assert_eq!(t.subscribe(Uuid::from_value(2), SenderKind::Frame), Ok(()));
    assert_eq!(t.targets(SenderKind::Frame), vec![Uuid::from_value(2)]);
    let frame = FrameData::Video { timestamp: 10, data: vec![0x01] };
    match frame.clone() {
        FrameData::Video { timestamp, data } => {
            assert_eq!(timestamp, 10);
            assert_eq!(data, vec![0x01]);
        }
        _ => panic!("expected a video frame"),
    }
}

#[test]
fn prior_data_priming() {
    let mut prior = PriorData::new();
    let info = MediaInfo { audio_clock_rate: 48000, video_clock_rate: 90000, vcodec: VideoCodecType::H264 };
    prior.observe(&FrameData::MediaInfo { media_info: info });
    prior.observe(&FrameData::Video { timestamp: 0, data: vec![0x17, 0x01] });
    prior.observe(&FrameData::Video { timestamp: 40, data: vec![0x27, 0x01] });
    let items = prior.prior_frames();
    assert_eq!(items.len(), 2);
    assert!(matches!(items[0], FrameData::MediaInfo { media_info } if media_info == info));
    assert!(matches!(&items[1], FrameData::Video { timestamp: 0, data } if *data == vec![0x17, 0x01]));
}

#[test]
fn prior_data_keeps_metadata_between_info_and_key_frame() {
    let mut prior = PriorData::new();
    assert_eq!(prior.prior_frames().len(), 0);
    prior.observe(&FrameData::Audio { timestamp: 1, data: vec![0xaf] });
    assert_eq!(prior.prior_frames().len(), 0);
    prior.observe(&FrameData::Video { timestamp: 5, data: vec![0x17] });
    prior.observe(&FrameData::MetaData { timestamp: 3, data: vec![2, 3] });
    let items = prior.prior_frames();
    assert_eq!(items.len(), 2);
    assert!(matches!(&items[0], FrameData::MetaData { timestamp: 3, data } if *data == vec![2, 3]));
    assert!(matches!(&items[1], FrameData::Video { timestamp: 5, .. }));
}

#[test]
fn slow_subscriber_eviction() {
    let mut t = Transmitter::new(PublisherLanes { frame: true, packet: false });
    let a = Uuid::from_value(10);
    let b = Uuid::from_value(11);
    t.subscribe(a, SenderKind::Frame).unwrap();
    t.subscribe(b, SenderKind::Frame).unwrap();
    assert_eq!(t.targets(SenderKind::Frame), vec![a, b]);
    assert!(t.unsubscribe(a));
    assert_eq!(t.targets(SenderKind::Frame), vec![b]);
    assert_eq!(t.targets(SenderKind::Frame), vec![b]);
}

#[test]
fn duplicate_publisher() {
    let mut hub = Hub::new();
    let id = StreamIdentifier::WebRTC { app_name: "x".to_string(), stream_name: "y".to_string() };
    assert!(hub.publish(id.clone(), &publisher(1)).is_ok());
    assert!(matches!(hub.publish(id.clone(), &publisher(2)), Err(HubError::DuplicatePublisher)));
    assert!(hub.is_published(&id));
    assert_eq!(hub.stream_count(), 1);
}

#[test]
fn kick_subscriber() {
    let mut hub = Hub::new();
    let id = rtmp("live", "k");
    hub.publish(id.clone(), &publisher(1)).unwrap();
    let mut t = Transmitter::new(PublisherLanes { frame: true, packet: true });
    let u = Uuid::from_value(0xabc);
    hub.subscribe(id.clone(), subscriber(0xabc)).unwrap();
    t.subscribe(u, SenderKind::Frame).unwrap();
    match hub.kick(u) {
        Some(PubSubInfo::Subscribe { identifier, sub_info }) => {
            assert!(identifier == id);
            assert_eq!(sub_info.id, u);
        }
        _ => panic!("expected a subscriber"),
    }
    assert!(t.unsubscribe(u));
    assert!(!t.is_subscribed(u, SenderKind::Frame));
    assert!(hub.kick(u).is_none());
    assert!(hub.is_published(&id));
}

#[test]
fn kick_publisher_ends_stream() {
    let mut hub = Hub::new();
    let id = rtmp("live", "p");
    hub.publish(id.clone(), &publisher(7)).unwrap();
    assert!(matches!(hub.kick(Uuid::from_value(7)), Some(PubSubInfo::Publish { .. })));
    assert!(!hub.is_published(&id));
    assert!(hub.subscribe(id, subscriber(8)).is_err());
}

#[test]
fn protocol_mismatch() {
    let mut t = Transmitter::new(PublisherLanes { frame: false, packet: true });
    let u = Uuid::from_value(3);
    assert_eq!(t.subscribe(u, SenderKind::Frame), Err(TransmitterError::IncompatibleSubscriber));
    assert_eq!(t.targets(SenderKind::Frame), vec![]);
    assert_eq!(t.subscribe(u, SenderKind::Packet), Ok(()));
    assert_eq!(t.targets(SenderKind::Packet), vec![u]);
}

#[test]
fn subscribe_to_absent_stream_is_refused_with_broadcast() {
    let mut hub = Hub::new();
    let id = StreamIdentifier::Rtsp { stream_path: "/cam".to_string() };
    match hub.subscribe(id.clone(), subscriber(4)) {
        Err(BroadcastEvent::Subscribe { identifier }) => assert!(identifier == id),
        _ => panic!("expected a refusal"),
    }
    assert!(hub.kick(Uuid::from_value(4)).is_none());
}

#[test]
fn unsubscribe_and_unpublish_unknown_stream() {
    let mut hub = Hub::new();
    let id = rtmp("live", "none");
    assert_eq!(hub.unsubscribe(&id, &subscriber(1)), Err(HubError::StreamNotFound));
    assert!(matches!(hub.unpublish(&id, &publisher(1)), Err(HubError::StreamNotFound)));
}

#[test]
fn no_subscribe_after_unpublish_until_republish() {
    let mut hub = Hub::new();
    let id = rtmp("live", "b");
    hub.publish(id.clone(), &publisher(1)).unwrap();
    let ev = hub.unpublish(&id, &publisher(1)).unwrap();
    assert!(matches!(ev, BroadcastEvent::UnPublish { identifier } if identifier == id));
    assert!(hub.subscribe(id.clone(), subscriber(2)).is_err());
    hub.publish(rtmp("live", "other"), &publisher(3)).unwrap();
    assert!(hub.subscribe(id.clone(), subscriber(2)).is_err());
    hub.publish(id.clone(), &publisher(1)).unwrap();
    assert!(hub.subscribe(id, subscriber(2)).is_ok());
}

#[test]
fn subscribe_then_unsubscribe_restores_table() {
    let mut t = Transmitter::new(PublisherLanes { frame: true, packet: true });
    let a = Uuid::from_value(1);
    let b = Uuid::from_value(2);
    t.subscribe(a, SenderKind::Frame).unwrap();
    t.subscribe(b, SenderKind::Packet).unwrap();
    let c = Uuid::from_value(3);
    t.subscribe(c, SenderKind::Frame).unwrap();
    assert!(t.unsubscribe(c));
    assert_eq!(t.targets(SenderKind::Frame), vec![a]);
    assert_eq!(t.targets(SenderKind::Packet), vec![b]);
    assert!(!t.unsubscribe(c));
}

#[test]
fn republish_starts_fresh_transmitter() {
    let mut hub = Hub::new();
    let id = rtmp("live", "r");
    hub.publish(id.clone(), &publisher(1)).unwrap();
    let mut t = Transmitter::new(PublisherLanes { frame: true, packet: false });
    t.subscribe(Uuid::from_value(5), SenderKind::Frame).unwrap();
    hub.unpublish(&id, &publisher(1)).unwrap();
    assert_eq!(t.unpublish(), vec![Uuid::from_value(5)]);
    assert!(hub.publish(id.clone(), &publisher(1)).is_ok());
    let fresh = Transmitter::new(PublisherLanes { frame: true, packet: false });
    assert_eq!(fresh.targets(SenderKind::Frame), vec![]);
}

#[test]
fn statistic_size_matches_requests() {
    let mut hub = Hub::new();
    assert_eq!(hub.api_statistic().size, 0);
    hub.publish(rtmp("a", "1"), &publisher(1)).unwrap();
    hub.publish(StreamIdentifier::Rtp { ssrc: 9 }, &publisher(2)).unwrap();
    let plan = hub.api_statistic();
    assert_eq!(plan.size, 2);
    assert_eq!(plan.targets.len(), 2);
    assert!(plan.targets[0] == rtmp("a", "1"));
    assert!(plan.targets[1] == StreamIdentifier::Rtp { ssrc: 9 });
}

#[test]
fn one_stream_per_identifier() {
    let mut hub = Hub::new();
    for i in 0..3u128 {
        let r = hub.publish(rtmp("live", "same"), &publisher(i));
        assert_eq!(r.is_ok(), i == 0);
    }
    assert_eq!(hub.stream_count(), 1);
}

#[test]
fn each_subscriber_targeted_once() {
    let mut t = Transmitter::new(PublisherLanes { frame: true, packet: false });
    let u = Uuid::from_value(42);
    t.subscribe(u, SenderKind::Frame).unwrap();
    t.subscribe(u, SenderKind::Frame).unwrap();
    assert_eq!(t.targets(SenderKind::Frame), vec![u]);
}

#[test]
fn unpublish_closes_all_subscribers() {
    let mut t = Transmitter::new(PublisherLanes { frame: true, packet: true });
    t.subscribe(Uuid::from_value(1), SenderKind::Packet).unwrap();
    t.subscribe(Uuid::from_value(2), SenderKind::Frame).unwrap();
    assert_eq!(t.unpublish(), vec![Uuid::from_value(2), Uuid::from_value(1)]);
    assert_eq!(t.targets(SenderKind::Frame), vec![]);
    assert_eq!(t.targets(SenderKind::Packet), vec![]);
}

#[test]
fn identifiers_compare_by_kind_and_text() {
    assert!(rtmp("a", "b") == rtmp("a", "b"));
    assert!(rtmp("a", "b") != rtmp("a", "c"));
    let w = StreamIdentifier::WebRTC { app_name: "a".to_string(), stream_name: "b".to_string() };
    assert!(!rtmp("a", "b").same_as(&w));
    assert!(w.duplicate() == w);
}

#[test]
fn registered_subscriber_stays_target_while_others_change() {
    let mut t = Transmitter::new(PublisherLanes { frame: true, packet: false });
    let s = Uuid::from_value(1);
    t.subscribe(s, SenderKind::Frame).unwrap();
    for other in 2..6u128 {
        t.subscribe(Uuid::from_value(other), SenderKind::Frame).unwrap();
        assert!(t.targets(SenderKind::Frame).contains(&s));
    }
    t.unsubscribe(Uuid::from_value(3));
    t.unsubscribe(Uuid::from_value(2));
    assert_eq!(
        t.targets(SenderKind::Frame),
        vec![s, Uuid::from_value(4), Uuid::from_value(5)]
    );
}
