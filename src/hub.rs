use vstd::prelude::*;
use std::collections::HashMap;
use crate::define::{BroadcastEvent, ClientRole, PubSubInfo, PublisherInfo, SubscriberInfo, Uuid};
use crate::stream::{IdentifierView, StreamIdentifier};

verus! {

broadcast use vstd::std_specs::hash::group_hash_axioms;

#[derive(Debug, Clone, Copy, PartialEq, Eq, Structural)]
pub enum HubError {
    /// A stream of that identifier is already being published.
    DuplicatePublisher,
    /// No stream of that identifier is being published.
    StreamNotFound,
}

/// `s` with the entry at the index where `i` stands taken out, when `i` stands there.
pub open spec fn removed(s: Seq<IdentifierView>, i: IdentifierView) -> Seq<IdentifierView> {
    if s.contains(i) {
        s.remove(choose|k: int| 0 <= k < s.len() && s[k] == i)
    } else {
        s
    }
}

/// The answer to a statistics request: first the number of reports to
/// expect, then one request per transmitter.
pub struct StatisticPlan {
    pub size: usize,
    pub targets: Vec<StreamIdentifier>,
}

/// The process-wide registry: the identifiers of the live streams, each with
/// its one transmitter, and the client ids by which sessions can be kicked.
/// Events are decided one at a time, in the order they arrive.
pub struct Hub {
    streams: Vec<StreamIdentifier>,
    clients: HashMap<u128, PubSubInfo>,
}

impl Hub {
    /// The live streams, in the order they were published.
    pub closed spec fn streams(self) -> Seq<IdentifierView> {
        self.streams@.map_values(|s: StreamIdentifier| s@)
    }

    /// What each client id, by its value, stands for.
    pub closed spec fn clients(self) -> Map<u128, ClientRole> {
        self.clients@.map_values(|p: PubSubInfo| p@)
    }

    pub open spec fn is_live(self, i: IdentifierView) -> bool {
        self.streams().contains(i)
    }

    /// No identifier has two transmitters.
    pub open spec fn wf(self) -> bool {
        self.streams().no_duplicates()
    }

    pub fn new() -> (r: Hub)
        ensures
            r.wf(),
            r.streams() == Seq::<IdentifierView>::empty(),
            r.clients() == Map::<u128, ClientRole>::empty(),
    {
        let r = Hub { streams: Vec::new(), clients: HashMap::new() };
        assert(r.streams() =~= Seq::<IdentifierView>::empty());
        assert(r.clients() =~= Map::<u128, ClientRole>::empty());
        r
    }

    fn find(&self, identifier: &StreamIdentifier) -> (r: Option<usize>)
        ensures
            r is None <==> !self.is_live(identifier@),
            r matches Some(k) ==> k < self.streams().len() && self.streams()[k as int]
                == identifier@,
    {
        let mut k: usize = 0;
        while k < self.streams.len()
            invariant
                k <= self.streams@.len(),
                forall|j: int| 0 <= j < k ==> self.streams()[j] != identifier@,
            decreases self.streams@.len() - k,
        {
            if self.streams[k].same_as(identifier) {
                assert(self.streams()[k as int] == identifier@);
                return Some(k);
            }
            k += 1;
        }
        proof {
            if self.is_live(identifier@) {
                let j = choose|j: int| 0 <= j < self.streams().len() && self.streams()[j] == identifier@;
                assert(self.streams()[j] == identifier@);
            }
        }
        None
    }

    /// Whether a stream of that identifier is live.
    pub fn is_published(&self, identifier: &StreamIdentifier) -> (r: bool)
        ensures
            r == self.is_live(identifier@),
    {
        self.find(identifier).is_some()
    }

    /// The number of live streams.
    pub fn stream_count(&self) -> (r: usize)
        ensures
            r == self.streams().len(),
    {
        self.streams.len()
    }

    /// Accepts a publisher unless its stream is already live. On success the
    /// caller starts a transmitter and sends out the returned event.
    pub fn publish(&mut self, identifier: StreamIdentifier, info: &PublisherInfo) -> (r: Result<
        BroadcastEvent,
        HubError,
    >)
        requires
            old(self).wf(),
        ensures
            final(self).wf(),
            old(self).is_live(identifier@) ==> r == Err::<BroadcastEvent, HubError>(
                HubError::DuplicatePublisher,
            ) && final(self).streams() == old(self).streams() && final(self).clients() == old(self).clients(),
            r matches Ok(e) ==> e is Publish && e.identifier() == identifier@,
            !old(self).is_live(identifier@) ==> r is Ok && final(self).streams() == old(
                self).streams().push(identifier@) && final(self).clients() == old(self).clients().insert(
                info.id.value,
                ClientRole::Publish { identifier: identifier@ },
            ),
    {
        if self.find(&identifier).is_some() {
            return Err(HubError::DuplicatePublisher);
        }
        let event = BroadcastEvent::Publish { identifier: identifier.duplicate() };
        let entry = PubSubInfo::Publish { identifier: identifier.duplicate() };
        self.streams.push(identifier);
        self.clients.insert(info.id.value, entry);
        proof {
            assert(self.streams() =~= old(self).streams().push(identifier@));
            assert(self.clients() =~= old(self).clients().insert(
                info.id.value,
                ClientRole::Publish { identifier: identifier@ },
            ));
        }
        Ok(event)
    }

    fn drop_stream(&mut self, k: usize)
        requires
            old(self).wf(),
            k < old(self).streams().len(),
        ensures
            final(self).wf(),
            final(self).streams() == removed(old(self).streams(), old(self).streams()[k as int]),
            !final(self).is_live(old(self).streams()[k as int]),
            final(self).clients() == old(self).clients(),
    {
        let ghost s = old(self).streams();
        proof {
            let j = choose|j: int| 0 <= j < s.len() && s[j] == s[k as int];
            assert(s[j] == s[k as int]);
        }
        self.streams.remove(k);
        assert(self.streams() =~= s.remove(k as int));
        assert forall|a: int, b: int|
            0 <= a < self.streams().len() && 0 <= b < self.streams().len() && a != b implies self.streams()[a]
            != self.streams()[b] by {
            let a2 = if a < k { a } else { a + 1 };
            let b2 = if b < k { b } else { b + 1 };
            assert(s[a2] == self.streams()[a] && s[b2] == self.streams()[b]);
        }
        assert forall|j: int| 0 <= j < self.streams().len() implies self.streams()[j] != s[k as int] by {
            let j2 = if j < k { j } else { j + 1 };
            assert(s[j2] == self.streams()[j]);
        }
    }

    /// Ends a live stream: its identifier is freed at once, so no subscriber
    /// can attach to the old transmitter. On success the caller tells the
    /// transmitter to close and sends out the returned event.
    pub fn unpublish(&mut self, identifier: &StreamIdentifier, info: &PublisherInfo) -> (r: Result<
        BroadcastEvent,
        HubError,
    >)
        requires
            old(self).wf(),
        ensures
            final(self).wf(),
            !final(self).is_live(identifier@),
            !old(self).is_live(identifier@) ==> r == Err::<BroadcastEvent, HubError>(
                HubError::StreamNotFound,
            ) && final(self).streams() == old(self).streams() && final(self).clients() == old(self).clients(),
            r matches Ok(e) ==> e is UnPublish && e.identifier() == identifier@,
            old(self).is_live(identifier@) ==> r is Ok && final(self).streams() == removed(old(self).streams(), identifier@)
                && final(self).clients() == old(self).clients().remove(info.id.value),
    {
        match self.find(identifier) {
            None => Err(HubError::StreamNotFound),
            Some(k) => {
                self.drop_stream(k);
                self.clients.remove(&info.id.value);
                assert(self.clients() =~= old(self).clients().remove(info.id.value));
                Ok(BroadcastEvent::UnPublish { identifier: identifier.duplicate() })
            },
        }
    }

    /// Admits a subscriber to a live stream, after which the caller hands its
    /// sender to the transmitter. For an absent stream the subscription is
    /// refused (the stream is not found) and the returned event asks relays
    /// to pull it; retrying is the caller's part.
    pub fn subscribe(&mut self, identifier: StreamIdentifier, info: SubscriberInfo) -> (r: Result<
        (),
        BroadcastEvent,
    >)
        requires
            old(self).wf(),
        ensures
            final(self).wf(),
            final(self).streams() == old(self).streams(),
            r is Ok <==> old(self).is_live(identifier@),
            r matches Err(e) ==> e is Subscribe && e.identifier() == identifier@ && final(self).clients() == old(self).clients(),
            r is Ok ==> final(self).clients() == old(self).clients().insert(
                info.id.value,
                ClientRole::Subscribe { identifier: identifier@, id: info.id },
            ),
    {
        if self.find(&identifier).is_none() {
            return Err(BroadcastEvent::Subscribe { identifier });
        }
        let key = info.id.value;
        let ghost role = ClientRole::Subscribe { identifier: identifier@, id: info.id };
        self.clients.insert(key, PubSubInfo::Subscribe { identifier, sub_info: info });
        assert(self.clients() =~= old(self).clients().insert(key, role));
        Ok(())
    }

    /// Forgets a subscriber. The caller forwards the unsubscription to the
    /// stream's transmitter when the stream is live.
    pub fn unsubscribe(&mut self, identifier: &StreamIdentifier, info: &SubscriberInfo) -> (r: Result<
        (),
        HubError,
    >)
        requires
            old(self).wf(),
        ensures
            final(self).wf(),
            final(self).streams() == old(self).streams(),
            final(self).clients() == old(self).clients().remove(info.id.value),
            r is Ok <==> old(self).is_live(identifier@),
            r is Err ==> r == Err::<(), HubError>(HubError::StreamNotFound),
    {
        self.clients.remove(&info.id.value);
        assert(self.clients() =~= old(self).clients().remove(info.id.value));
        if self.find(identifier).is_none() {
            Err(HubError::StreamNotFound)
        } else {
            Ok(())
        }
    }

    /// Kicks the client with that id. A kicked publisher's stream is ended
    /// here at once; for a kicked subscriber the caller forwards the
    /// unsubscription to its transmitter. Unknown ids are ignored, so a
    /// second kick does nothing.
    pub fn kick(&mut self, id: Uuid) -> (r: Option<PubSubInfo>)
        requires
            old(self).wf(),
        ensures
            final(self).wf(),
            r is None <==> !old(self).clients().contains_key(id.value),
            final(self).clients() == old(self).clients().remove(id.value),
            r is None ==> final(self).streams() == old(self).streams(),
            r matches Some(p) ==> p@ == old(self).clients()[id.value],
            r matches Some(p) ==> match p@ {
                ClientRole::Subscribe { .. } => final(self).streams() == old(self).streams(),
                ClientRole::Publish { identifier } => final(self).streams() == removed(
                    old(self).streams(),
                    identifier,
                ) && !final(self).is_live(identifier),
            },
    {
        let entry = self.clients.remove(&id.value);
        assert(self.clients() =~= old(self).clients().remove(id.value));
        match entry {
            None => None,
            Some(p) => {
                if let PubSubInfo::Publish { identifier } = &p {
                    if let Some(k) = self.find(identifier) {
                        self.drop_stream(k);
                    }
                }
                Some(p)
            },
        }
    }

    /// Plans a statistics request: the announced size equals the number of
    /// transmitters asked, one per live stream.
    pub fn api_statistic(&self) -> (r: StatisticPlan)
        ensures
            r.size == r.targets@.len(),
            r.size == self.streams().len(),
            r.targets@.map_values(|s: StreamIdentifier| s@) == self.streams(),
    {
        let targets = self.statistic_targets();
        StatisticPlan { size: targets.len(), targets }
    }

    /// The live streams, one per transmitter that is asked for statistics.
    /// Its length is the count that is reported before the statistics.
    pub fn statistic_targets(&self) -> (r: Vec<StreamIdentifier>)
        ensures
            r@.map_values(|s: StreamIdentifier| s@) == self.streams(),
            r@.len() == self.streams().len(),
    {
        let mut r: Vec<StreamIdentifier> = Vec::new();
        let mut k: usize = 0;
        while k < self.streams.len()
            invariant
                k <= self.streams@.len(),
                r@.map_values(|s: StreamIdentifier| s@) == self.streams().subrange(0, k as int),
            decreases self.streams@.len() - k,
        {
            let d = self.streams[k].duplicate();
            let ghost prev = r@;
            r.push(d);
            proof {
                assert(r@ == prev.push(d));
                assert(prev.map_values(|s: StreamIdentifier| s@).len() == k);
            }
            k += 1;
            assert forall|j: int| 0 <= j < k implies r@.map_values(|s: StreamIdentifier| s@)[j]
                == self.streams().subrange(0, k as int)[j] by {
                if j < k - 1 {
                    assert(prev.map_values(|s: StreamIdentifier| s@)[j] == self.streams().subrange(0, k - 1)[j]);
                }
            }
            assert(r@.map_values(|s: StreamIdentifier| s@) =~= self.streams().subrange(0, k as int));
        }
        assert(self.streams().subrange(0, k as int) =~= self.streams());
        r
    }
}

/// At every moment an identifier has at most one live stream, and so at
/// most one transmitter.
pub proof fn lemma_one_transmitter_per_identifier(h: Hub, a: int, b: int)
    requires
        h.wf(),
        0 <= a < h.streams().len(),
        0 <= b < h.streams().len(),
        h.streams()[a] == h.streams()[b],
    ensures
        a == b,
{
}

proof fn lemma_removed_at(s: Seq<IdentifierView>, k: int)
    requires
        s.no_duplicates(),
        0 <= k < s.len(),
    ensures
        removed(s, s[k]) == s.remove(k),
        !removed(s, s[k]).contains(s[k]),
{
    let j = choose|j: int| 0 <= j < s.len() && s[j] == s[k];
    assert(s[j] == s[k]);
    let r = s.remove(k);
    assert forall|i: int| 0 <= i < r.len() implies r[i] != s[k] by {
        let i2 = if i < k { i } else { i + 1 };
        assert(s[i2] == r[i]);
    }
}

/// Once a stream is unpublished it stays absent, so every subscription to
/// it is refused, while other streams are published or unpublished; only
/// its own publication brings it back.
pub proof fn lemma_unpublished_stays_absent(
    s: Seq<IdentifierView>,
    i: IdentifierView,
    other: IdentifierView,
)
    requires
        s.no_duplicates(),
        other != i,
    ensures
        !removed(s, i).contains(i),
        !s.contains(i) ==> !s.push(other).contains(i),
        !s.contains(i) ==> !removed(s, other).contains(i),
        s.push(i).contains(i),
{
    if s.contains(i) {
        let k = choose|k: int| 0 <= k < s.len() && s[k] == i;
        lemma_removed_at(s, k);
    }
    assert(s.push(i)[s.len() as int] == i);
    if !s.contains(i) {
        if s.push(other).contains(i) {
            let k = choose|k: int| 0 <= k < s.len() + 1 && s.push(other)[k] == i;
            assert(k < s.len());
            assert(s[k] == i);
        }
        if s.contains(other) {
            let j = choose|j: int| 0 <= j < s.len() && s[j] == other;
            let r = s.remove(j);
            if r.contains(i) {
                let k = choose|k: int| 0 <= k < r.len() && r[k] == i;
                let k2 = if k < j { k } else { k + 1 };
                assert(s[k2] == i);
            }
        }
    }
}

/// Publish, unpublish and publish again for one identifier: the second
/// publication is accepted, since the registry is back where it started.
pub proof fn lemma_republish(s: Seq<IdentifierView>, i: IdentifierView)
    requires
        s.no_duplicates(),
        !s.contains(i),
    ensures
        removed(s.push(i), i) == s,
        !removed(s.push(i), i).contains(i),
{
    let p = s.push(i);
    assert forall|a: int, b: int| 0 <= a < p.len() && 0 <= b < p.len() && a != b implies p[a]
        != p[b] by {
        if a == s.len() || b == s.len() {
        } else {
            assert(p[a] == s[a] && p[b] == s[b]);
        }
    }
    assert(p[s.len() as int] == i);
    lemma_removed_at(p, s.len() as int);
    assert(p.remove(s.len() as int) =~= s);
}

} // verus!
