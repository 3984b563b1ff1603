use vstd::prelude::*;
use crate::stream::{IdentifierView, StreamIdentifier};

verus! {

/// The role of a subscribing session relative to the hub.
#[derive(Debug, Clone, Copy, PartialEq, Eq, Structural, Hash)]
pub enum SubscribeType {
    /// A remote client plays an RTMP stream.
    PlayerRtmp,
    /// A remote client plays an HTTP-FLV stream.
    PlayerHttpFlv,
    /// A remote client plays an HLS stream.
    PlayerHls,
    /// A remote or local client plays an RTSP stream.
    PlayerRtsp,
    /// A local client plays a WebRTC stream, for protocol remuxing.
    PlayerWebrtc,
    /// A remote client plays the raw RTP of an RTSP or WHEP stream.
    PlayerRtp,
    /// The local HLS segmenter.
    GenerateHls,
    /// A local client subscribes and pushes the stream to a remote server.
    PublisherRtmp,
}

/// The role of a publishing session relative to the hub.
#[derive(Debug, Clone, Copy, PartialEq, Eq, Structural, Hash)]
pub enum PublishType {
    /// An RTMP stream pushed by a remote client.
    PushRtmp,
    /// An RTMP stream pulled from a remote server and published locally.
    RelayRtmp,
    /// An RTSP stream pushed by a remote client.
    PushRtsp,
    /// An RTSP stream pulled from a remote server and published locally.
    RelayRtsp,
    /// A WebRTC (WHIP) stream pushed by a remote client.
    PushWebRTC,
    /// Raw RTP of an RTSP or WHIP stream.
    PushRtp,
}

/// Where a session's request came from.
#[derive(Debug, Clone)]
pub struct NotifyInfo {
    pub request_url: String,
    pub remote_addr: String,
}

/// The lowercase hexadecimal digits, by value.
pub open spec fn hex_digits() -> Seq<char> {
    seq!['0', '1', '2', '3', '4', '5', '6', '7', '8', '9', 'a', 'b', 'c', 'd', 'e', 'f']
}

/// The last `n` hexadecimal digits of `v`, most significant first.
pub open spec fn hex_of(v: nat, n: nat) -> Seq<char>
    decreases n,
{
    if n == 0 {
        Seq::empty()
    } else {
        hex_of(v / 16, (n - 1) as nat).push(hex_digits()[(v % 16) as int])
    }
}

/// A 16-byte session identifier, the only handle for kicking a session.
#[derive(Debug, Clone, Copy, PartialEq, Eq, Structural, Hash)]
pub struct Uuid {
    pub value: u128,
}

impl Uuid {
    /// The identifier's text: 32 lowercase hexadecimal digits, no dashes.
    pub open spec fn text(self) -> Seq<char> {
        hex_of(self.value as nat, 32)
    }

    pub fn from_value(value: u128) -> (r: Uuid)
        ensures
            r.value == value,
    {
        Uuid { value }
    }

    /// Reads the text of an identifier: 32 lowercase hexadecimal digits.
    pub fn from_text(s: &str) -> (r: Option<Uuid>)
        ensures
            r is Some <==> is_uuid_text(s@),
            r matches Some(u) ==> u.text() == s@,
    {
        let n = s.unicode_len();
        if n != 32 {
            return None;
        }
        let mut value: u128 = 0;
        let mut i: usize = 0;
        while i < 32
            invariant
                n == s@.len() == 32,
                i <= 32,
                value < pow16(i as nat),
                hex_of(value as nat, i as nat) == s@.subrange(0, i as int),
                forall|j: int| 0 <= j < i ==> is_hex_digit(#[trigger] s@[j]),
            decreases 32 - i,
        {
            let c = s.get_char(i);
            let d: u128 = if '0' <= c && c <= '9' {
                (c as u32 - '0' as u32) as u128
            } else if 'a' <= c && c <= 'f' {
                (c as u32 - 'a' as u32 + 10) as u128
            } else {
                return None;
            };
            proof {
                lemma_digit(c);
                assert(d == digit_value(c));
                lemma_hex_step(value as nat, d as nat, i as nat);
                assert(s@.subrange(0, i + 1) =~= s@.subrange(0, i as int).push(c));
                reveal_with_fuel(pow16, 33);
                assert(pow16(31) * 16 == 0x1_0000_0000_0000_0000_0000_0000_0000_0000);
                let p = pow16(i as nat);
                assert(pow16(i as nat + 1) == 16 * p);
                assert(p <= pow16(31)) by {
                    lemma_pow16_mono(i as nat, 31);
                }
                assert(value * 16 + d < 16 * p) by (nonlinear_arith)
                    requires
                        value < p,
                        d < 16,
                ;
            }
            value = value * 16 + d;
            i += 1;
        }
        assert(s@.subrange(0, 32) =~= s@);
        Some(Uuid { value })
    }

    /// The identifier as 32 lowercase hexadecimal digits without dashes.
    pub fn to_string(&self) -> (r: String)
        ensures
            r@ == self.text(),
            r@.len() == 32,
    {
        proof {
            lemma_hex_len(self.value as nat, 32);
        }
        hex_string(self.value, 32)
    }
}

/// 16 to the power `n`.
pub open spec fn pow16(n: nat) -> nat
    decreases n,
{
    if n == 0 {
        1
    } else {
        16 * pow16((n - 1) as nat)
    }
}

/// The value of a lowercase hexadecimal digit.
pub open spec fn digit_value(c: char) -> int {
    if '0' <= c <= '9' {
        c as int - '0' as int
    } else {
        c as int - 'a' as int + 10
    }
}

pub open spec fn is_hex_digit(c: char) -> bool {
    ('0' <= c <= '9') || ('a' <= c <= 'f')
}

proof fn lemma_digit(c: char)
    requires
        is_hex_digit(c),
    ensures
        0 <= digit_value(c) < 16,
        hex_digits()[digit_value(c)] == c,
{
}

proof fn lemma_digits_distinct(a: int, b: int)
    requires
        0 <= a < 16,
        0 <= b < 16,
        hex_digits()[a] == hex_digits()[b],
    ensures
        a == b,
{
}

proof fn lemma_hex_step(v: nat, d: nat, n: nat)
    requires
        d < 16,
    ensures
        hex_of(v * 16 + d, n + 1) == hex_of(v, n).push(hex_digits()[d as int]),
{
    assert((v * 16 + d) / 16 == v && (v * 16 + d) % 16 == d) by (nonlinear_arith)
        requires
            d < 16,
    ;
}

proof fn lemma_hex_injective(v: nat, w: nat, n: nat)
    requires
        v < pow16(n),
        w < pow16(n),
        hex_of(v, n) == hex_of(w, n),
    ensures
        v == w,
    decreases n,
{
    if n > 0 {
        let m = (n - 1) as nat;
        let hv = hex_of(v / 16, m);
        let hw = hex_of(w / 16, m);
        lemma_hex_len(v / 16, m);
        lemma_hex_len(w / 16, m);
        assert(hex_of(v, n) == hv.push(hex_digits()[(v % 16) as int]));
        assert(hex_of(w, n) == hw.push(hex_digits()[(w % 16) as int]));
        assert(hex_of(v, n)[m as int] == hex_digits()[(v % 16) as int]);
        assert(hex_of(w, n)[m as int] == hex_digits()[(w % 16) as int]);
        lemma_digits_distinct((v % 16) as int, (w % 16) as int);
        assert(hv =~= hex_of(v, n).drop_last());
        assert(hw =~= hex_of(w, n).drop_last());
        let p = pow16(m);
        assert(v / 16 < p && w / 16 < p) by (nonlinear_arith)
            requires
                v < 16 * p,
                w < 16 * p,
        ;
        lemma_hex_injective(v / 16, w / 16, m);
        assert(v == 16 * (v / 16) + v % 16 && w == 16 * (w / 16) + w % 16) by (nonlinear_arith);
    }
}

proof fn lemma_pow16_mono(a: nat, b: nat)
    requires
        a <= b,
    ensures
        pow16(a) <= pow16(b),
    decreases b,
{
    if a < b {
        lemma_pow16_mono(a, (b - 1) as nat);
    }
}

/// The text of a value of 32 hexadecimal digits names that value alone.
pub proof fn lemma_uuid_text_injective(a: Uuid, b: Uuid)
    requires
        a.text() == b.text(),
    ensures
        a == b,
{
    reveal_with_fuel(pow16, 33);
    assert(pow16(32) == 0x1_0000_0000_0000_0000_0000_0000_0000_0000);
    lemma_hex_injective(a.value as nat, b.value as nat, 32);
}

/// Reading the text of an identifier gives the identifier back: the text is
/// accepted by `from_text`, and no other identifier has that text.
pub proof fn lemma_uuid_text_round_trip(u: Uuid, v: Uuid)
    ensures
        is_uuid_text(u.text()),
        v.text() == u.text() ==> v == u,
{
    lemma_hex_len(u.value as nat, 32);
    lemma_text_is_hex(u.value as nat, 32);
    if v.text() == u.text() {
        lemma_uuid_text_injective(u, v);
    }
}

proof fn lemma_text_is_hex(v: nat, n: nat)
    ensures
        forall|i: int| 0 <= i < hex_of(v, n).len() ==> is_hex_digit(#[trigger] hex_of(v, n)[i]),
    decreases n,
{
    if n > 0 {
        let m = (n - 1) as nat;
        lemma_text_is_hex(v / 16, m);
        lemma_hex_len(v / 16, m);
        let d = (v % 16) as int;
        assert(is_hex_digit(hex_digits()[d]));
        let prev = hex_of(v / 16, m);
        assert(hex_of(v, n) == prev.push(hex_digits()[d]));
        assert forall|i: int| 0 <= i < hex_of(v, n).len() implies is_hex_digit(
            #[trigger] hex_of(v, n)[i],
        ) by {
            if i < prev.len() {
                assert(hex_of(v, n)[i] == prev[i]);
            }
        }
    }
}

/// Whether `s` is the text of an identifier: 32 lowercase hexadecimal digits.
pub open spec fn is_uuid_text(s: Seq<char>) -> bool {
    s.len() == 32 && forall|i: int| 0 <= i < 32 ==> is_hex_digit(#[trigger] s[i])
}

proof fn lemma_hex_len(v: nat, n: nat)
    ensures
        hex_of(v, n).len() == n,
    decreases n,
{
    if n > 0 {
        lemma_hex_len(v / 16, (n - 1) as nat);
    }
}

fn hex_digit(d: u128) -> (r: &'static str)
    requires
        d < 16,
    ensures
        r@ == seq![hex_digits()[d as int]],
{
    let digits = "0123456789abcdef";
    proof {
        reveal_strlit("0123456789abcdef");
    }
    let r = digits.substring_char(d as usize, d as usize + 1);
    assert(r@ =~= seq![hex_digits()[d as int]]);
    r
}

fn hex_string(v: u128, n: usize) -> (r: String)
    ensures
        r@ == hex_of(v as nat, n as nat),
    decreases n,
{
    if n == 0 {
        String::new()
    } else {
        let mut s = hex_string(v / 16, n - 1);
        s.append(hex_digit(v % 16));
        s
    }
}

/// Who subscribes, and how to reach it.
#[derive(Debug, Clone)]
pub struct SubscriberInfo {
    pub id: Uuid,
    pub sub_type: SubscribeType,
    pub notify_info: NotifyInfo,
}

/// Who publishes, and where from.
#[derive(Debug, Clone)]
pub struct PublisherInfo {
    pub id: Uuid,
    pub pub_type: PublishType,
    pub notify_info: NotifyInfo,
}

#[derive(Debug, Clone, Copy, PartialEq, Eq, Structural)]
pub enum VideoCodecType {
    H264,
    H265,
}

/// The clock rates and the video codec of a stream.
#[derive(Debug, Clone, Copy, PartialEq, Eq, Structural)]
pub struct MediaInfo {
    pub audio_clock_rate: u32,
    pub video_clock_rate: u32,
    pub vcodec: VideoCodecType,
}

/// Negotiation data handed from a publisher to a subscriber.
#[derive(Debug, Clone)]
pub enum Information {
    Sdp { data: String },
}

/// A signal to other nodes and to relays: a stream appeared or went away
/// here, or a stream that is absent here was asked for.
#[derive(Debug, Clone)]
pub enum BroadcastEvent {
    Publish { identifier: StreamIdentifier },
    UnPublish { identifier: StreamIdentifier },
    Subscribe { identifier: StreamIdentifier },
    UnSubscribe { identifier: StreamIdentifier },
}

impl BroadcastEvent {
    /// The identifier that the event is about.
    pub open spec fn identifier(self) -> IdentifierView {
        match self {
            BroadcastEvent::Publish { identifier } => identifier@,
            BroadcastEvent::UnPublish { identifier } => identifier@,
            BroadcastEvent::Subscribe { identifier } => identifier@,
            BroadcastEvent::UnSubscribe { identifier } => identifier@,
        }
    }
}

/// What a client id stands for, as plain values.
pub ghost enum ClientRole {
    Subscribe { identifier: IdentifierView, id: Uuid },
    Publish { identifier: IdentifierView },
}

/// What the hub keeps of a client, so that it can be kicked by its id.
#[derive(Debug, Clone)]
pub enum PubSubInfo {
    Subscribe { identifier: StreamIdentifier, sub_info: SubscriberInfo },
    Publish { identifier: StreamIdentifier },
}

impl View for PubSubInfo {
    type V = ClientRole;

    open spec fn view(&self) -> ClientRole {
        match self {
            PubSubInfo::Subscribe { identifier, sub_info } => ClientRole::Subscribe {
                identifier: identifier@,
                id: sub_info.id,
            },
            PubSubInfo::Publish { identifier } => ClientRole::Publish { identifier: identifier@ },
        }
    }
}

} // verus!
