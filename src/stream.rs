use vstd::prelude::*;

verus! {

/// What identifies a stream, as plain text and numbers.
pub ghost enum IdentifierView {
    Rtmp { app_name: Seq<char>, stream_name: Seq<char> },
    Rtsp { stream_path: Seq<char> },
    WebRTC { app_name: Seq<char>, stream_name: Seq<char> },
    Rtp { ssrc: u32 },
}

/// The key of a live stream. Two identifiers name the same stream exactly
/// when their views are equal.
#[derive(Debug, Clone, Eq, Hash)]
pub enum StreamIdentifier {
    Rtmp { app_name: String, stream_name: String },
    Rtsp { stream_path: String },
    WebRTC { app_name: String, stream_name: String },
    Rtp { ssrc: u32 },
}

impl View for StreamIdentifier {
    type V = IdentifierView;

    open spec fn view(&self) -> IdentifierView {
        match self {
            StreamIdentifier::Rtmp { app_name, stream_name } => IdentifierView::Rtmp {
                app_name: app_name@,
                stream_name: stream_name@,
            },
            StreamIdentifier::Rtsp { stream_path } => IdentifierView::Rtsp {
                stream_path: stream_path@,
            },
            StreamIdentifier::WebRTC { app_name, stream_name } => IdentifierView::WebRTC {
                app_name: app_name@,
                stream_name: stream_name@,
            },
            StreamIdentifier::Rtp { ssrc } => IdentifierView::Rtp { ssrc: *ssrc },
        }
    }
}

impl StreamIdentifier {
    /// Whether both name the same stream.
    pub fn same_as(&self, other: &StreamIdentifier) -> (r: bool)
        ensures
            r == (self@ == other@),
    {
        match (self, other) {
            (
                StreamIdentifier::Rtmp { app_name: a1, stream_name: s1 },
                StreamIdentifier::Rtmp { app_name: a2, stream_name: s2 },
            ) => *a1 == *a2 && *s1 == *s2,
            (
                StreamIdentifier::Rtsp { stream_path: p1 },
                StreamIdentifier::Rtsp { stream_path: p2 },
            ) => *p1 == *p2,
            (
                StreamIdentifier::WebRTC { app_name: a1, stream_name: s1 },
                StreamIdentifier::WebRTC { app_name: a2, stream_name: s2 },
            ) => *a1 == *a2 && *s1 == *s2,
            (StreamIdentifier::Rtp { ssrc: x1 }, StreamIdentifier::Rtp { ssrc: x2 }) => *x1 == *x2,
            _ => false,
        }
    }

    /// A copy naming the same stream.
    pub fn duplicate(&self) -> (r: StreamIdentifier)
        ensures
            r@ == self@,
    {
        match self {
            StreamIdentifier::Rtmp { app_name, stream_name } => StreamIdentifier::Rtmp {
                app_name: app_name.clone(),
                stream_name: stream_name.clone(),
            },
            StreamIdentifier::Rtsp { stream_path } => StreamIdentifier::Rtsp {
                stream_path: stream_path.clone(),
            },
            StreamIdentifier::WebRTC { app_name, stream_name } => StreamIdentifier::WebRTC {
                app_name: app_name.clone(),
                stream_name: stream_name.clone(),
            },
            StreamIdentifier::Rtp { ssrc } => StreamIdentifier::Rtp { ssrc: *ssrc },
        }
    }
}

impl PartialEq for StreamIdentifier {
    fn eq(&self, other: &StreamIdentifier) -> (r: bool) {
        self.same_as(other)
    }
}

impl vstd::std_specs::cmp::PartialEqSpecImpl for StreamIdentifier {
    open spec fn obeys_eq_spec() -> bool {
        true
    }

    open spec fn eq_spec(&self, other: &StreamIdentifier) -> bool {
        self@ == other@
    }
}

} // verus!
