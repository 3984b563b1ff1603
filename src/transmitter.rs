use vstd::prelude::*;
use crate::define::Uuid;

verus! {

/// Which lanes a publisher feeds: decoded frames, raw packets, or both.
#[derive(Debug, Clone, Copy, PartialEq, Eq, Structural)]
pub struct PublisherLanes {
    pub frame: bool,
    pub packet: bool,
}

/// The kind of data channel a subscriber hands over.
#[derive(Debug, Clone, Copy, PartialEq, Eq, Structural)]
pub enum SenderKind {
    Frame,
    Packet,
}

#[derive(Debug, Clone, Copy, PartialEq, Eq, Structural)]
pub enum TransmitterError {
    /// The subscriber asked for a lane that the publisher does not feed.
    IncompatibleSubscriber,
}

/// Whether a publisher with `lanes` can serve a subscriber of `kind`.
pub open spec fn serves(lanes: PublisherLanes, kind: SenderKind) -> bool {
    match kind {
        SenderKind::Frame => lanes.frame,
        SenderKind::Packet => lanes.packet,
    }
}

/// `s` with the one occurrence of `u` taken out, or `s` itself if `u` is absent.
pub open spec fn without(s: Seq<Uuid>, u: Uuid) -> Seq<Uuid> {
    if s.contains(u) {
        s.remove(choose|i: int| 0 <= i < s.len() && s[i] == u)
    } else {
        s
    }
}

/// The subscriber tables of one live stream. Media items are handed, in
/// publisher order, to the subscribers of their lane in table order.
pub struct Transmitter {
    lanes: PublisherLanes,
    frame_subs: Vec<Uuid>,
    packet_subs: Vec<Uuid>,
}

impl Transmitter {
    pub closed spec fn lanes(self) -> PublisherLanes {
        self.lanes
    }

    /// The subscribers of `kind`, in the order they joined.
    pub closed spec fn table(self, kind: SenderKind) -> Seq<Uuid> {
        match kind {
            SenderKind::Frame => self.frame_subs@,
            SenderKind::Packet => self.packet_subs@,
        }
    }

    /// Each subscriber stands at most once in each table.
    pub open spec fn wf(self) -> bool {
        &&& self.table(SenderKind::Frame).no_duplicates()
        &&& self.table(SenderKind::Packet).no_duplicates()
    }

    /// A fresh transmitter for a publisher feeding `lanes`, with no subscriber.
    pub fn new(lanes: PublisherLanes) -> (r: Transmitter)
        ensures
            r.wf(),
            r.lanes() == lanes,
            r.table(SenderKind::Frame) == Seq::<Uuid>::empty(),
            r.table(SenderKind::Packet) == Seq::<Uuid>::empty(),
    {
        Transmitter { lanes, frame_subs: Vec::new(), packet_subs: Vec::new() }
    }

    pub fn publisher_lanes(&self) -> (r: PublisherLanes)
        ensures
            r == self.lanes(),
    {
        self.lanes
    }

    /// Whether `id` subscribes with a sender of `kind`.
    pub fn is_subscribed(&self, id: Uuid, kind: SenderKind) -> (r: bool)
        ensures
            r == self.table(kind).contains(id),
    {
        let t = match kind {
            SenderKind::Frame => &self.frame_subs,
            SenderKind::Packet => &self.packet_subs,
        };
        position(t, id).is_some()
    }

    /// Registers a subscriber. It is refused when the publisher does not feed
    /// its lane; one already registered keeps its place.
    pub fn subscribe(&mut self, id: Uuid, kind: SenderKind) -> (r: Result<(), TransmitterError>)
        requires
            old(self).wf(),
        ensures
            final(self).wf(),
            final(self).lanes() == old(self).lanes(),
            r is Ok <==> serves(old(self).lanes(), kind),
            r is Err ==> r == Err::<(), TransmitterError>(TransmitterError::IncompatibleSubscriber),
            r is Err ==> *final(self) == *old(self),
            r is Ok ==> final(self).table(kind) == if old(self).table(kind).contains(id) {
                old(self).table(kind)
            } else {
                old(self).table(kind).push(id)
            },
            forall|k: SenderKind| k != kind ==> final(self).table(k) == old(self).table(k),
    {
        match kind {
            SenderKind::Frame => {
                if !self.lanes.frame {
                    return Err(TransmitterError::IncompatibleSubscriber);
                }
                if position(&self.frame_subs, id).is_none() {
                    self.frame_subs.push(id);
                }
            },
            SenderKind::Packet => {
                if !self.lanes.packet {
                    return Err(TransmitterError::IncompatibleSubscriber);
                }
                if position(&self.packet_subs, id).is_none() {
                    self.packet_subs.push(id);
                }
            },
        }
        Ok(())
    }

    /// Takes `id` out of both tables: on unsubscribe, on a kick, and when a
    /// send to it failed because its channel is closed. Returns whether it
    /// stood in either.
    pub fn unsubscribe(&mut self, id: Uuid) -> (r: bool)
        requires
            old(self).wf(),
        ensures
            final(self).wf(),
            final(self).lanes() == old(self).lanes(),
            forall|k: SenderKind| #[trigger]
                final(self).table(k) == without(old(self).table(k), id),
            forall|k: SenderKind| !(#[trigger] final(self).table(k)).contains(id),
            r == (old(self).table(SenderKind::Frame).contains(id) || old(self).table(
                SenderKind::Packet,
            ).contains(id)),
    {
        let a = remove_id(&mut self.frame_subs, id);
        let b = remove_id(&mut self.packet_subs, id);
        proof {
            assert forall|k: SenderKind| #[trigger]
                self.table(k) == without(old(self).table(k), id) by {
                match k {
                    SenderKind::Frame => {},
                    SenderKind::Packet => {},
                }
            }
            assert forall|k: SenderKind| !(#[trigger] self.table(k)).contains(id) by {
                match k {
                    SenderKind::Frame => {},
                    SenderKind::Packet => {},
                }
            }
        }
        a || b
    }

    /// The subscribers that a media item of lane `kind` goes to, in order.
    pub fn targets(&self, kind: SenderKind) -> (r: Vec<Uuid>)
        ensures
            r@ == self.table(kind),
    {
        match kind {
            SenderKind::Frame => copy_ids(&self.frame_subs),
            SenderKind::Packet => copy_ids(&self.packet_subs),
        }
    }

    /// Ends the stream: empties both tables and returns every subscriber,
    /// frame subscribers first, so that their channels get closed.
    pub fn unpublish(&mut self) -> (r: Vec<Uuid>)
        requires
            old(self).wf(),
        ensures
            final(self).wf(),
            final(self).lanes() == old(self).lanes(),
            r@ == old(self).table(SenderKind::Frame) + old(self).table(SenderKind::Packet),
            final(self).table(SenderKind::Frame) == Seq::<Uuid>::empty(),
            final(self).table(SenderKind::Packet) == Seq::<Uuid>::empty(),
    {
        let mut all = copy_ids(&self.frame_subs);
        let mut rest = copy_ids(&self.packet_subs);
        all.append(&mut rest);
        self.frame_subs = Vec::new();
        self.packet_subs = Vec::new();
        all
    }
}

fn copy_ids(v: &Vec<Uuid>) -> (r: Vec<Uuid>)
    ensures
        r@ == v@,
{
    let mut r: Vec<Uuid> = Vec::new();
    let mut i: usize = 0;
    while i < v.len()
        invariant
            i <= v.len(),
            r@ == v@.subrange(0, i as int),
        decreases v.len() - i,
    {
        r.push(v[i]);
        i += 1;
    }
    assert(r@ =~= v@);
    r
}

/// The index of `id` in `v`, if it stands there.
fn position(v: &Vec<Uuid>, id: Uuid) -> (r: Option<usize>)
    ensures
        r is None <==> !v@.contains(id),
        r matches Some(i) ==> i < v.len() && v@[i as int] == id,
{
    let mut i: usize = 0;
    while i < v.len()
        invariant
            i <= v.len(),
            forall|j: int| 0 <= j < i ==> v@[j] != id,
        decreases v.len() - i,
    {
        if v[i] == id {
            return Some(i);
        }
        i += 1;
    }
    None
}

proof fn lemma_unique_index(s: Seq<Uuid>, i: int)
    requires
        s.no_duplicates(),
        0 <= i < s.len(),
    ensures
        (choose|j: int| 0 <= j < s.len() && s[j] == s[i]) == i,
{
    let j = choose|j: int| 0 <= j < s.len() && s[j] == s[i];
    assert(0 <= j < s.len() && s[j] == s[i]);
}

fn remove_id(v: &mut Vec<Uuid>, id: Uuid) -> (r: bool)
    requires
        old(v)@.no_duplicates(),
    ensures
        final(v)@ == without(old(v)@, id),
        final(v)@.no_duplicates(),
        !final(v)@.contains(id),
        r == old(v)@.contains(id),
{
    match position(v, id) {
        Some(i) => {
            proof {
                lemma_unique_index(v@, i as int);
            }
            v.remove(i);
            assert forall|a: int, b: int|
                0 <= a < v@.len() && 0 <= b < v@.len() && a != b implies v@[a] != v@[b] by {
                let a2 = if a < i { a } else { a + 1 };
                let b2 = if b < i { b } else { b + 1 };
                assert(old(v)@[a2] == v@[a] && old(v)@[b2] == v@[b]);
            }
            assert forall|j: int| 0 <= j < v@.len() implies v@[j] != id by {
                let j2 = if j < i { j } else { j + 1 };
                assert(old(v)@[j2] == v@[j]);
            }
            true
        },
        None => false,
    }
}

/// Each subscriber of a lane stands exactly once among the targets of every
/// media item of that lane, so it receives each such item once.
pub proof fn lemma_each_subscriber_served_once(t: Transmitter, kind: SenderKind, u: Uuid)
    requires
        t.wf(),
        t.table(kind).contains(u),
    ensures
        exists|i: int|
            #![trigger t.table(kind)[i]]
            0 <= i < t.table(kind).len() && t.table(kind)[i] == u && forall|j: int|
                0 <= j < t.table(kind).len() && t.table(kind)[j] == u ==> j == i,
{
    let s = t.table(kind);
    assert(s.no_duplicates()) by {
        match kind {
            SenderKind::Frame => {},
            SenderKind::Packet => {},
        }
    }
    let i = choose|i: int| 0 <= i < s.len() && s[i] == u;
    assert(s[i] == u);
}

/// A registered subscriber stays a target of every later item of its lane
/// while others join or leave: only its own removal takes it out.
pub proof fn lemma_subscriber_stays(s: Seq<Uuid>, sub: Uuid, other: Uuid)
    requires
        s.no_duplicates(),
        s.contains(sub),
        other != sub,
    ensures
        without(s, other).contains(sub),
        s.push(other).contains(sub),
{
    let k = choose|k: int| 0 <= k < s.len() && s[k] == sub;
    assert(s.push(other)[k] == sub);
    if s.contains(other) {
        let j = choose|j: int| 0 <= j < s.len() && s[j] == other;
        let r = s.remove(j);
        let k2 = if k < j { k } else { k - 1 };
        assert(r[k2] == sub);
    }
}

proof fn lemma_without_at(s: Seq<Uuid>, k: int)
    requires
        s.no_duplicates(),
        0 <= k < s.len(),
    ensures
        without(s, s[k]) == s.remove(k),
{
    lemma_unique_index(s, k);
}

/// Subscribing an id that stands in neither table and then unsubscribing it
/// leaves both tables as they were.
pub proof fn lemma_subscribe_unsubscribe_restores(joined: Seq<Uuid>, other: Seq<Uuid>, id: Uuid)
    requires
        joined.no_duplicates(),
        !joined.contains(id),
        !other.contains(id),
    ensures
        without(joined.push(id), id) == joined,
        without(other, id) == other,
{
    let p = joined.push(id);
    assert forall|a: int, b: int| 0 <= a < p.len() && 0 <= b < p.len() && a != b implies p[a]
        != p[b] by {
        if a == joined.len() || b == joined.len() {
        } else {
            assert(p[a] == joined[a] && p[b] == joined[b]);
        }
    }
    assert(p[joined.len() as int] == id);
    lemma_without_at(p, joined.len() as int);
    assert(p.remove(joined.len() as int) =~= joined);
}

/// Once a kicked subscriber's removal reaches its transmitter, it stands in
/// no table, so its channel gets no further item and is dropped; every
/// other subscriber keeps its place.
pub proof fn lemma_kicked_subscriber_removed(s: Seq<Uuid>, kicked: Uuid, other: Uuid)
    requires
        s.no_duplicates(),
    ensures
        !without(s, kicked).contains(kicked),
        other != kicked && s.contains(other) ==> without(s, kicked).contains(other),
{
    if s.contains(kicked) {
        let k = choose|k: int| 0 <= k < s.len() && s[k] == kicked;
        lemma_without_at(s, k);
        let r = s.remove(k);
        assert forall|i: int| 0 <= i < r.len() implies r[i] != kicked by {
            let i2 = if i < k { i } else { i + 1 };
            assert(s[i2] == r[i]);
        }
    }
    if other != kicked && s.contains(other) {
        lemma_subscriber_stays(s, other, kicked);
    }
}

/// One thing that happens to a lane's table: a subscriber joins, one leaves
/// (unsubscribed, kicked or evicted), or the publisher emits a media item.
pub ghost enum TableStep {
    Join(Uuid),
    Leave(Uuid),
    Item,
}

/// The table after one step, as `subscribe`, `unsubscribe` and `targets` leave it.
pub open spec fn after_step(t: Seq<Uuid>, st: TableStep) -> Seq<Uuid> {
    match st {
        TableStep::Join(u) => if t.contains(u) {
            t
        } else {
            t.push(u)
        },
        TableStep::Leave(u) => without(t, u),
        TableStep::Item => t,
    }
}

/// The table after a run of steps.
pub open spec fn table_after(t: Seq<Uuid>, steps: Seq<TableStep>) -> Seq<Uuid>
    decreases steps.len(),
{
    if steps.len() == 0 {
        t
    } else {
        after_step(table_after(t, steps.drop_last()), steps.last())
    }
}

/// The positions of the media items among `steps`, in publisher order.
pub open spec fn item_positions(steps: Seq<TableStep>) -> Seq<int>
    decreases steps.len(),
{
    if steps.len() == 0 {
        Seq::empty()
    } else if steps.last() is Item {
        item_positions(steps.drop_last()).push(steps.len() - 1)
    } else {
        item_positions(steps.drop_last())
    }
}

/// The positions of the media items that reach `sub`, in the order it gets
/// them: those emitted while it stands in the table.
pub open spec fn received(t: Seq<Uuid>, steps: Seq<TableStep>, sub: Uuid) -> Seq<int>
    decreases steps.len(),
{
    if steps.len() == 0 {
        Seq::empty()
    } else if steps.last() is Item && table_after(t, steps.drop_last()).contains(sub) {
        received(t, steps.drop_last(), sub).push(steps.len() - 1)
    } else {
        received(t, steps.drop_last(), sub)
    }
}

proof fn lemma_table_after_keeps(t: Seq<Uuid>, steps: Seq<TableStep>, sub: Uuid)
    requires
        t.no_duplicates(),
        t.contains(sub),
        forall|i: int| 0 <= i < steps.len() ==> steps[i] != TableStep::Leave(sub),
    ensures
        table_after(t, steps).no_duplicates(),
        table_after(t, steps).contains(sub),
    decreases steps.len(),
{
    if steps.len() > 0 {
        let pre = steps.drop_last();
        assert forall|i: int| 0 <= i < pre.len() implies pre[i] != TableStep::Leave(sub) by {
            assert(pre[i] == steps[i]);
        }
        lemma_table_after_keeps(t, pre, sub);
        let a = table_after(t, pre);
        assert(steps[steps.len() - 1] != TableStep::Leave(sub));
        match steps.last() {
            TableStep::Join(u) => {
                if !a.contains(u) {
                    lemma_push_unique(a, u);
                    lemma_subscriber_stays(a, sub, u);
                }
            },
            TableStep::Leave(u) => {
                lemma_subscriber_stays(a, sub, u);
                lemma_without_unique(a, u);
            },
            TableStep::Item => {},
        }
    }
}

proof fn lemma_push_unique(s: Seq<Uuid>, u: Uuid)
    requires
        s.no_duplicates(),
        !s.contains(u),
    ensures
        s.push(u).no_duplicates(),
{
    let p = s.push(u);
    assert forall|a: int, b: int| 0 <= a < p.len() && 0 <= b < p.len() && a != b implies p[a]
        != p[b] by {
        if a == s.len() || b == s.len() {
        } else {
            assert(p[a] == s[a] && p[b] == s[b]);
        }
    }
}

proof fn lemma_without_unique(s: Seq<Uuid>, u: Uuid)
    requires
        s.no_duplicates(),
    ensures
        without(s, u).no_duplicates(),
{
    if s.contains(u) {
        let k = choose|k: int| 0 <= k < s.len() && s[k] == u;
        let r = s.remove(k);
        assert forall|a: int, b: int| 0 <= a < r.len() && 0 <= b < r.len() && a != b implies r[a]
            != r[b] by {
            let a2 = if a < k { a } else { a + 1 };
            let b2 = if b < k { b } else { b + 1 };
            assert(s[a2] == r[a] && s[b2] == r[b]);
        }
    }
}

/// A subscriber registered before a run of steps, and not removed during
/// it, receives every media item of the run, in publisher order.
pub proof fn lemma_registered_receives_all(t: Seq<Uuid>, steps: Seq<TableStep>, sub: Uuid)
    requires
        t.no_duplicates(),
        t.contains(sub),
        forall|i: int| 0 <= i < steps.len() ==> steps[i] != TableStep::Leave(sub),
    ensures
        received(t, steps, sub) == item_positions(steps),
    decreases steps.len(),
{
    if steps.len() > 0 {
        let pre = steps.drop_last();
        assert forall|i: int| 0 <= i < pre.len() implies pre[i] != TableStep::Leave(sub) by {
            assert(pre[i] == steps[i]);
        }
        lemma_registered_receives_all(t, pre, sub);
        lemma_table_after_keeps(t, pre, sub);
    }
}

proof fn lemma_received_below(t: Seq<Uuid>, steps: Seq<TableStep>, sub: Uuid)
    ensures
        forall|i: int|
            0 <= i < received(t, steps, sub).len() ==> 0 <= #[trigger] received(t, steps, sub)[i]
                < steps.len(),
    decreases steps.len(),
{
    if steps.len() > 0 {
        let pre = steps.drop_last();
        lemma_received_below(t, pre, sub);
        let r = received(t, steps, sub);
        let q = received(t, pre, sub);
        assert forall|i: int| 0 <= i < r.len() implies 0 <= #[trigger] r[i] < steps.len() by {
            if i < q.len() {
                assert(r[i] == q[i]);
            }
        }
    }
}

/// No media item reaches a subscriber twice, and items reach it in
/// publisher order.
pub proof fn lemma_received_in_order_once(t: Seq<Uuid>, steps: Seq<TableStep>, sub: Uuid)
    ensures
        forall|i: int, j: int|
            0 <= i < j < received(t, steps, sub).len() ==> #[trigger] received(t, steps, sub)[i]
                < #[trigger] received(t, steps, sub)[j],
    decreases steps.len(),
{
    if steps.len() > 0 {
        let pre = steps.drop_last();
        lemma_received_in_order_once(t, pre, sub);
        lemma_received_below(t, pre, sub);
        let r = received(t, steps, sub);
        let q = received(t, pre, sub);
        assert forall|i: int, j: int| 0 <= i < j < r.len() implies r[i] < r[j] by {
            if j < q.len() {
                assert(r[i] == q[i] && r[j] == q[j]);
            } else {
                assert(r[i] == q[i]);
            }
        }
    }
}

} // verus!
