use vstd::prelude::*;
use crate::define::MediaInfo;

verus! {

/// A media item as plain values.
pub ghost enum FrameView {
    Video { timestamp: u32, data: Seq<u8> },
    Audio { timestamp: u32, data: Seq<u8> },
    MetaData { timestamp: u32, data: Seq<u8> },
    MediaInfo { media_info: MediaInfo },
}

/// Timestamped decoded media, for protocols that remux whole frames.
#[derive(Debug, Clone)]
pub enum FrameData {
    Video { timestamp: u32, data: Vec<u8> },
    Audio { timestamp: u32, data: Vec<u8> },
    MetaData { timestamp: u32, data: Vec<u8> },
    MediaInfo { media_info: MediaInfo },
}

impl View for FrameData {
    type V = FrameView;

    open spec fn view(&self) -> FrameView {
        match self {
            FrameData::Video { timestamp, data } => FrameView::Video {
                timestamp: *timestamp,
                data: data@,
            },
            FrameData::Audio { timestamp, data } => FrameView::Audio {
                timestamp: *timestamp,
                data: data@,
            },
            FrameData::MetaData { timestamp, data } => FrameView::MetaData {
                timestamp: *timestamp,
                data: data@,
            },
            FrameData::MediaInfo { media_info } => FrameView::MediaInfo { media_info: *media_info },
        }
    }
}

/// Raw RTP payloads, passed through without reframing.
#[derive(Debug, Clone)]
pub enum PacketData {
    Video { timestamp: u32, data: Vec<u8> },
    Audio { timestamp: u32, data: Vec<u8> },
}

/// Whether an FLV video body starts a key frame: its frame type, the high
/// four bits of the first byte, is 1.
pub open spec fn is_key_frame(data: Seq<u8>) -> bool {
    data.len() > 0 && data[0] / 16 == 1
}

fn copy_bytes(v: &Vec<u8>) -> (r: Vec<u8>)
    ensures
        r@ == v@,
{
    let mut r: Vec<u8> = Vec::new();
    let mut i: usize = 0;
    while i < v.len()
        invariant
            i <= v.len(),
            r@ == v@.subrange(0, i as int),
        decreases v.len() - i,
    {
        r.push(v[i]);
        i += 1;
    }
    assert(r@ =~= v@);
    r
}

/// What a new subscriber needs before live frames: the latest media info,
/// the latest metadata block and the latest key frame.
pub struct PriorData {
    media_info: Option<MediaInfo>,
    metadata: Option<(u32, Vec<u8>)>,
    key_frame: Option<(u32, Vec<u8>)>,
}

/// The item of a kept `(timestamp, bytes)` pair, if any, as a sequence of
/// at most one view.
pub open spec fn kept(o: Option<(u32, Seq<u8>)>, video: bool) -> Seq<FrameView> {
    match o {
        Some((t, d)) => if video {
            seq![FrameView::Video { timestamp: t, data: d }]
        } else {
            seq![FrameView::MetaData { timestamp: t, data: d }]
        },
        None => Seq::empty(),
    }
}

pub open spec fn pair_view(o: Option<(u32, Vec<u8>)>) -> Option<(u32, Seq<u8>)> {
    match o {
        Some((t, d)) => Some((t, d@)),
        None => None,
    }
}

impl PriorData {
    pub closed spec fn media_info(self) -> Option<MediaInfo> {
        self.media_info
    }

    pub closed spec fn metadata(self) -> Option<(u32, Seq<u8>)> {
        pair_view(self.metadata)
    }

    pub closed spec fn key_frame(self) -> Option<(u32, Seq<u8>)> {
        pair_view(self.key_frame)
    }

    /// The prior items, in the order a subscriber receives them.
    pub open spec fn items(self) -> Seq<FrameView> {
        let info = match self.media_info() {
            Some(m) => seq![FrameView::MediaInfo { media_info: m }],
            None => Seq::empty(),
        };
        info + kept(self.metadata(), false) + kept(self.key_frame(), true)
    }

    pub fn new() -> (r: PriorData)
        ensures
            r.media_info() is None,
            r.metadata() is None,
            r.key_frame() is None,
    {
        PriorData { media_info: None, metadata: None, key_frame: None }
    }

    /// Keeps what a later subscriber will need of a live frame: media info,
    /// metadata and key frames replace the ones kept before; other frames
    /// change nothing.
    pub fn observe(&mut self, frame: &FrameData)
        ensures
            frame@ matches FrameView::MediaInfo { media_info } ==> final(self).media_info() == Some(
                media_info,
            ),
            !(frame@ is MediaInfo) ==> final(self).media_info() == old(self).media_info(),
            frame@ matches FrameView::MetaData { timestamp, data } ==> final(self).metadata() == Some(
                (timestamp, data),
            ),
            !(frame@ is MetaData) ==> final(self).metadata() == old(self).metadata(),
            frame@ matches FrameView::Video { timestamp, data } ==> final(self).key_frame() == if is_key_frame(data) {
                Some((timestamp, data))
            } else {
                old(self).key_frame()
            },
            !(frame@ is Video) ==> final(self).key_frame() == old(self).key_frame(),
    {
        match frame {
            FrameData::MediaInfo { media_info } => {
                self.media_info = Some(*media_info);
            },
            FrameData::MetaData { timestamp, data } => {
                self.metadata = Some((*timestamp, copy_bytes(data)));
            },
            FrameData::Video { timestamp, data } => {
                if data.len() > 0 && data[0] / 16 == 1 {
                    self.key_frame = Some((*timestamp, copy_bytes(data)));
                }
            },
            FrameData::Audio { .. } => {},
        }
    }

    /// The items to send a new subscriber ahead of live frames.
    pub fn prior_frames(&self) -> (r: Vec<FrameData>)
        ensures
            r@.map_values(|f: FrameData| f@) == self.items(),
    {
        let mut r: Vec<FrameData> = Vec::new();
        if let Some(m) = self.media_info {
            r.push(FrameData::MediaInfo { media_info: m });
        }
        let ghost a = r@.map_values(|f: FrameData| f@);
        if let Some((t, d)) = &self.metadata {
            r.push(FrameData::MetaData { timestamp: *t, data: copy_bytes(d) });
        }
        let ghost b = r@.map_values(|f: FrameData| f@);
        proof {
            assert(a =~= match self.media_info() {
                Some(m) => seq![FrameView::MediaInfo { media_info: m }],
                None => Seq::<FrameView>::empty(),
            });
            assert(b =~= a + kept(self.metadata(), false));
        }
        if let Some((t, d)) = &self.key_frame {
            r.push(FrameData::Video { timestamp: *t, data: copy_bytes(d) });
        }
        assert(r@.map_values(|f: FrameData| f@) =~= b + kept(self.key_frame(), true));
        r
    }
}

} // verus!
