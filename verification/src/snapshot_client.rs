//! The bookkeeping of chunk snapshot requests to the bridge: identifiers,
//! the bounded set of requests in flight, cancellation tombstones, the
//! binding of answers to their requests, and which registry generation an
//! answer is decoded with. Registries and snapshots themselves are decoded
//! by the render crate; this client names a registry generation by a number
//! that the caller assigns.
use vstd::prelude::*;
use crate::assoc::{distinct_keys, lemma_map_of_dom, lemma_map_of_len, lemma_map_of_push, lemma_map_of_remove, lemma_map_of_update, map_of};
use crate::idset::IdSet;
use crate::paths::same_text;
use crate::text::{decimal, push_char, push_decimal, push_str};
use crate::wire::{bytes_equal, copy_bytes, ChunkCoordinate, ChunkSnapshotRequest, Envelope, Payload, WorldIdentity, WorldKey};

verus! {

pub const MAX_IN_FLIGHT: usize = 96;
pub const MAX_CANCELLED: usize = 192;

/// Why the client refused a request or an answer.
#[derive(Debug, Clone, PartialEq, Eq)]
pub enum SnapshotClientError {
    InvalidSession,
    Saturated,
    InvalidResponse(&'static str),
    /// The render crate refused a registry replacement.
    Registry(String),
    /// The render crate could not decode a snapshot.
    Snapshot(String),
}

/// A request waiting for its answer.
#[derive(Debug, Clone)]
pub struct PendingRequest {
    pub world: WorldIdentity,
    pub coordinate: ChunkCoordinate,
    pub revision: u64,
    /// The registry generation the answer is decoded with, once known.
    pub generation: Option<u64>,
    /// Whether that generation was taken from the registry cached when the
    /// request was made.
    pub generation_from_cache: bool,
    /// A snapshot that came before its registry, as received.
    pub held_snapshot: Option<Vec<u8>>,
}

/// The key a world's registry is cached under: namespace, value and epoch
/// separated by NUL characters.
pub open spec fn registry_key_of(w: WorldKey) -> Seq<char> {
    w.0 + seq!['\0'] + w.1 + seq!['\0'] + decimal(w.2 as nat)
}

pub fn registry_key(world: &WorldIdentity) -> (k: String)
    ensures
        k@ == registry_key_of(world@),
{
    let mut k = String::new();
    push_str(&mut k, world.namespace.as_str());
    push_char(&mut k, '\0');
    push_str(&mut k, world.value.as_str());
    push_char(&mut k, '\0');
    push_decimal(&mut k, world.epoch);
    k
}

/// A cached registry: its world, its revision, the generation that names its
/// contents, and the replacement it was last built from.
#[derive(Debug, Clone)]
pub struct CachedRegistry {
    pub revision: u64,
    pub generation: u64,
    pub replacement: Option<Vec<u8>>,
}

/// The generation an answer is decoded with: a generation stamped from the
/// cache yields to the registry cached now; one bound by a registry
/// replacement is kept.
pub open spec fn chosen_generation(from_cache: bool, bound: Option<u64>, current: Option<u64>) -> Option<u64> {
    if from_cache {
        if current is Some {
            current
        } else {
            bound
        }
    } else {
        if bound is Some {
            bound
        } else {
            current
        }
    }
}

/// The client's requests, tombstones and registry cache.
pub struct SnapshotClient {
    session_id: [u8; 16],
    next_sequence: u64,
    next_request_id: u64,
    next_correlation: u64,
    pending: Vec<(u64, PendingRequest)>,
    cancelled: IdSet,
    cancelled_before: u64,
    registries: Vec<(String, CachedRegistry)>,
}

/// What a snapshot answer leads to.
#[derive(Debug, Clone, PartialEq, Eq)]
pub enum SnapshotStep {
    /// Nothing to decode now.
    Nothing,
    /// Decode the snapshot with this registry generation, then report it
    /// with [`SnapshotClient::complete`].
    Decode(u64),
}

/// A held snapshot that its registry now lets decode.
#[derive(Debug, Clone, PartialEq, Eq)]
pub struct HeldSnapshot {
    pub snapshot: Vec<u8>,
    pub generation: u64,
}

/// What a registry replacement leads to.
#[derive(Debug, Clone, PartialEq, Eq)]
pub enum RegistryStep {
    /// The replacement is ignored.
    Ignore,
    /// The replacement equals the cached one; a held snapshot may now decode.
    Unchanged(Option<HeldSnapshot>),
    /// Replace the world's registry, then report it with
    /// [`SnapshotClient::registry_replaced`] or
    /// [`SnapshotClient::registry_refused`].
    Replace,
}

/// No request in flight has a correlation identifier below `n`, and `n` was
/// handed out already: an answer that carries an identifier below `n` finds
/// no request waiting for it.
pub open spec fn in_flight_from(c: SnapshotClient, n: u64) -> bool {
    &&& n <= c.spec_next_correlation()
    &&& forall|k: u64| #[trigger] c.pending_map().dom().contains(k) ==> n <= k
}

/// A client keeps every floor of [`in_flight_from`] when its next identifier
/// does not go back and every request it newly holds got an identifier from
/// the next one on.
proof fn lemma_in_flight_kept(before: SnapshotClient, after: SnapshotClient)
    requires
        after.spec_next_correlation() >= before.spec_next_correlation(),
        forall|k: u64| #[trigger] after.pending_map().dom().contains(k) ==> before.pending_map().dom().contains(k)
            || k >= before.spec_next_correlation(),
    ensures
        forall|n: u64| #[trigger] in_flight_from(before, n) ==> in_flight_from(after, n),
{
    assert forall|n: u64| #[trigger] in_flight_from(before, n) implies in_flight_from(after, n) by {
        assert forall|k: u64| #[trigger] after.pending_map().dom().contains(k) implies n <= k by {
            if before.pending_map().dom().contains(k) {
            }
        }
    }
}

impl SnapshotClient {
    /// The requests in flight, by correlation identifier.
    pub closed spec fn pending_map(&self) -> Map<u64, PendingRequest> {
        map_of(self.pending@)
    }

    /// The correlation identifiers whose late answers are still recognised
    /// as cancelled.
    pub closed spec fn tombstones(&self) -> Set<u64> {
        self.cancelled@
    }

    pub closed spec fn spec_cancelled_before(&self) -> u64 {
        self.cancelled_before
    }

    pub closed spec fn spec_next_correlation(&self) -> u64 {
        self.next_correlation
    }

    pub closed spec fn spec_next_request_id(&self) -> u64 {
        self.next_request_id
    }

    pub closed spec fn spec_next_sequence(&self) -> u64 {
        self.next_sequence
    }

    pub closed spec fn spec_session_id(&self) -> Seq<u8> {
        self.session_id@
    }

    /// The cached registries, by key.
    pub closed spec fn registry_map(&self) -> Map<Seq<char>, CachedRegistry> {
        map_of(self.registries@.map_values(|p: (String, CachedRegistry)| (p.0@, p.1)))
    }

    /// The client's invariant: at most [`MAX_IN_FLIGHT`] requests in flight,
    /// at most [`MAX_CANCELLED`] tombstones, one entry per correlation and
    /// per registry key, and every correlation in flight or tombstoned was
    /// handed out already.
    pub closed spec fn wf(&self) -> bool {
        &&& distinct_keys(self.pending@)
        &&& self.pending@.len() <= MAX_IN_FLIGHT
        &&& self.cancelled.wf()
        &&& self.cancelled@.len() <= MAX_CANCELLED
        &&& distinct_keys(self.registries@.map_values(|p: (String, CachedRegistry)| (p.0@, p.1)))
        &&& forall|c: u64| #[trigger] self.pending_map().dom().contains(c) ==> c < self.next_correlation
        &&& self.cancelled_before <= self.next_correlation
    }

    /// A client for an authenticated session; refused for the all-zero
    /// session identifier.
    pub fn new(session_id: [u8; 16]) -> (r: Result<SnapshotClient, SnapshotClientError>)
        ensures
            (forall|j: int| 0 <= j < 16 ==> session_id@[j] == 0) ==> r == Err::<SnapshotClient, SnapshotClientError>(
                SnapshotClientError::InvalidSession,
            ),
            !(forall|j: int| 0 <= j < 16 ==> session_id@[j] == 0) ==> (r matches Ok(c) && c.wf()
                && c.spec_session_id() == session_id@ && c.pending_map() == Map::<u64, PendingRequest>::empty()
                && c.tombstones() == Set::<u64>::empty() && c.spec_next_sequence() == 1
                && c.spec_next_correlation() == 1 && c.spec_next_request_id() == 1 && c.spec_cancelled_before() == 0),
    {
        if crate::wire::all_zero(&session_id) {
            return Err(SnapshotClientError::InvalidSession);
        }
        let c = SnapshotClient {
            session_id,
            next_sequence: 1,
            next_request_id: 1,
            next_correlation: 1,
            pending: Vec::new(),
            cancelled: IdSet::new(),
            cancelled_before: 0,
            registries: Vec::new(),
        };
        proof {
            assert(c.pending_map() =~= Map::<u64, PendingRequest>::empty());
            assert(c.registries@.map_values(|p: (String, CachedRegistry)| (p.0@, p.1)) =~= Seq::<
                (Seq<char>, CachedRegistry),
            >::empty());
            lemma_map_of_len(c.pending@);
        }
        Ok(c)
    }

    /// The number of requests in flight.
    pub fn in_flight(&self) -> (n: usize)
        requires
            self.wf(),
        ensures
            n == self.pending_map().dom().len(),
    {
        proof {
            lemma_map_of_len(self.pending@);
        }
        self.pending.len()
    }

    fn position(&self, correlation: u64) -> (r: Option<usize>)
        requires
            distinct_keys(self.pending@),
        ensures
            match r {
                Some(i) => i < self.pending@.len() && self.pending@[i as int].0 == correlation
                    && self.pending_map().dom().contains(correlation) && self.pending_map()[correlation]
                    == self.pending@[i as int].1,
                None => !self.pending_map().dom().contains(correlation),
            },
    {
        let mut i: usize = 0;
        while i < self.pending.len()
            invariant
                i <= self.pending@.len(),
                distinct_keys(self.pending@),
                forall|j: int| 0 <= j < i ==> self.pending@[j].0 != correlation,
            decreases self.pending@.len() - i,
        {
            if self.pending[i].0 == correlation {
                proof {
                    lemma_map_of_dom(self.pending@, correlation);
                }
                return Some(i);
            }
            i = i + 1;
        }
        proof {
            lemma_map_of_dom(self.pending@, correlation);
        }
        None
    }

    fn take_sequence(&mut self) -> (s: u64)
        ensures
            s == old(self).next_sequence,
            final(self).next_sequence == if old(self).next_sequence == u64::MAX {
                u64::MAX
            } else {
                (old(self).next_sequence + 1) as u64
            },
            final(self).pending == old(self).pending,
            final(self).cancelled == old(self).cancelled,
            final(self).cancelled_before == old(self).cancelled_before,
            final(self).registries == old(self).registries,
            final(self).next_correlation == old(self).next_correlation,
            final(self).next_request_id == old(self).next_request_id,
            final(self).session_id == old(self).session_id,
    {
        let value = self.next_sequence;
        self.next_sequence = self.next_sequence.saturating_add(1);
        value
    }

    /// Requests a snapshot of chunk (`x`, `z`) of `world` at `revision`,
    /// to be captured whether or not the chunk is loaded.
    pub fn request_once(&mut self, world: WorldIdentity, x: i32, z: i32, revision: u64) -> (r: Result<
        Envelope,
        SnapshotClientError,
    >)
        requires
            old(self).wf(),
        ensures
            final(self).wf(),
            forall|n: u64| #[trigger] in_flight_from(*old(self), n) ==> in_flight_from(*final(self), n),
            request_outcome(*old(self), *final(self), r, world@, ChunkCoordinate { x, z }, revision, false),
    {
        self.request_once_loaded_only(world, x, z, revision, false)
    }

    /// Requests a snapshot; with `loaded_only` the bridge answers only for a
    /// loaded chunk. Refused with `Saturated` when [`MAX_IN_FLIGHT`] requests
    /// are in flight, and once correlation or request identifiers run out.
    #[verifier::spinoff_prover]
    pub fn request_once_loaded_only(
        &mut self,
        world: WorldIdentity,
        x: i32,
        z: i32,
        revision: u64,
        loaded_only: bool,
    ) -> (r: Result<Envelope, SnapshotClientError>)
        requires
            old(self).wf(),
        ensures
            final(self).wf(),
            forall|n: u64| #[trigger] in_flight_from(*old(self), n) ==> in_flight_from(*final(self), n),
            request_outcome(*old(self), *final(self), r, world@, ChunkCoordinate { x, z }, revision, loaded_only),
    {
        proof {
            lemma_map_of_len(self.pending@);
        }
        if self.pending.len() >= MAX_IN_FLIGHT {
            return Err(SnapshotClientError::Saturated);
        }
        let correlation = self.next_correlation;
        if correlation == 0 || correlation == u64::MAX {
            return Err(SnapshotClientError::InvalidResponse("correlation exhausted"));
        }
        self.next_correlation = correlation + 1;
        assert forall|c: u64| #[trigger] self.pending_map().dom().contains(c) implies c < self.next_correlation by {
            assert(old(self).pending_map().dom().contains(c));
        }
        let request_id = self.next_request_id;
        if request_id == 0 || request_id == u64::MAX {
            proof {
                lemma_in_flight_kept(*old(self), *self);
            }
            return Err(SnapshotClientError::InvalidResponse("request ID exhausted"));
        }
        self.next_request_id = request_id + 1;
        let coordinate = ChunkCoordinate { x, z };
        let key = registry_key(&world);
        let generation = match self.registry_position(key.as_str()) {
            Some(i) => Some(self.registries[i].1.generation),
            None => None,
        };
        let request = ChunkSnapshotRequest {
            world: Some(world.duplicate()),
            coordinate: Some(coordinate),
            revision,
            request_id,
            loaded_only,
        };
        let pending = PendingRequest {
            world,
            coordinate,
            revision,
            generation,
            generation_from_cache: generation.is_some(),
            held_snapshot: None,
        };
        let sequence = self.take_sequence();
        let ghost before = self.pending@;
        proof {
            lemma_map_of_dom(before, correlation);
            if map_of(before).dom().contains(correlation) {
                assert(correlation < old(self).next_correlation);
            }
        }
        self.pending.push((correlation, pending));
        proof {
            lemma_map_of_push(before, correlation, self.pending@.last().1);
            lemma_map_of_len(self.pending@);
            assert forall|c: u64| #[trigger] self.pending_map().dom().contains(c) implies c < self.next_correlation by {
                if c != correlation {
                    assert(map_of(before).dom().contains(c));
                    assert(old(self).pending_map().dom().contains(c));
                }
            }
        }
        proof {
            assert forall|k: u64| #[trigger] self.pending_map().dom().contains(k) implies old(self).pending_map().dom().contains(k)
                || k >= old(self).spec_next_correlation() by {
                if k != correlation {
                    assert(map_of(before).dom().contains(k));
                }
            }
            lemma_in_flight_kept(*old(self), *self);
        }
        let session = copy_bytes(&self.session_id);
        Ok(
            Envelope {
                protocol_major: 1,
                protocol_minor: 0,
                session_id: session,
                sequence,
                correlation_id: correlation,
                payload: Some(Payload::ChunkSnapshotRequest(request)),
            },
        )
    }

    fn registry_position(&self, key: &str) -> (r: Option<usize>)
        requires
            distinct_keys(self.registries@.map_values(|p: (String, CachedRegistry)| (p.0@, p.1))),
        ensures
            match r {
                Some(i) => i < self.registries@.len() && self.registries@[i as int].0@ == key@
                    && self.registry_map().dom().contains(key@) && self.registry_map()[key@]
                    == self.registries@[i as int].1,
                None => !self.registry_map().dom().contains(key@),
            },
    {
        let ghost pairs = self.registries@.map_values(|p: (String, CachedRegistry)| (p.0@, p.1));
        let mut i: usize = 0;
        while i < self.registries.len()
            invariant
                i <= self.registries@.len(),
                pairs == self.registries@.map_values(|p: (String, CachedRegistry)| (p.0@, p.1)),
                distinct_keys(pairs),
                forall|j: int| 0 <= j < i ==> self.registries@[j].0@ != key@,
            decreases self.registries@.len() - i,
        {
            if same_text(self.registries[i].0.as_str(), key) {
                proof {
                    lemma_map_of_dom(pairs, key@);
                    assert(pairs[i as int].0 == key@);
                }
                return Some(i);
            }
            i = i + 1;
        }
        proof {
            lemma_map_of_dom(pairs, key@);
            if exists|j: int| 0 <= j < pairs.len() && pairs[j].0 == key@ {
                let j = choose|j: int| 0 <= j < pairs.len() && pairs[j].0 == key@;
                assert(self.registries@[j].0@ == key@);
            }
        }
        None
    }
}

/// What a request does: refused when saturated or out of identifiers, else
/// a new request in flight under the next correlation identifier, carrying
/// the next request identifier and sequence number, bound to the generation
/// of the world's cached registry if there is one.
pub open spec fn request_outcome(
    before: SnapshotClient,
    after: SnapshotClient,
    r: Result<Envelope, SnapshotClientError>,
    world: WorldKey,
    coordinate: ChunkCoordinate,
    revision: u64,
    loaded_only: bool,
) -> bool {
    if before.pending_map().dom().len() >= MAX_IN_FLIGHT {
        r == Err::<Envelope, SnapshotClientError>(SnapshotClientError::Saturated) && after.pending_map()
            == before.pending_map()
    } else if before.spec_next_correlation() == 0 || before.spec_next_correlation() == u64::MAX {
        r == Err::<Envelope, SnapshotClientError>(SnapshotClientError::InvalidResponse("correlation exhausted"))
            && after.pending_map() == before.pending_map()
    } else if before.spec_next_request_id() == 0 || before.spec_next_request_id() == u64::MAX {
        r == Err::<Envelope, SnapshotClientError>(SnapshotClientError::InvalidResponse("request ID exhausted"))
            && after.pending_map() == before.pending_map() && after.spec_next_correlation()
            == before.spec_next_correlation() + 1
    } else {
        let c = before.spec_next_correlation();
        let cached = before.registry_map().dom().contains(registry_key_of(world));
        &&& r matches Ok(e)
        &&& e.protocol_major == 1
        &&& e.protocol_minor == 0
        &&& e.session_id@ == before.spec_session_id()
        &&& e.sequence == before.spec_next_sequence()
        &&& e.correlation_id == c
        &&& e.payload matches Some(Payload::ChunkSnapshotRequest(req))
        &&& req.world matches Some(w) && w@ == world
        &&& req.coordinate == Some(coordinate)
        &&& req.revision == revision
        &&& req.request_id == before.spec_next_request_id()
        &&& req.loaded_only == loaded_only
        &&& after.spec_next_correlation() == c + 1
        &&& after.spec_next_request_id() == before.spec_next_request_id() + 1
        &&& !before.pending_map().dom().contains(c)
        &&& after.pending_map().dom() == before.pending_map().dom().insert(c)
        &&& forall|k: u64| k != c && #[trigger] before.pending_map().dom().contains(k) ==> after.pending_map()[k]
            == before.pending_map()[k]
        &&& after.pending_map()[c].world@ == world
        &&& after.pending_map()[c].coordinate == coordinate
        &&& after.pending_map()[c].revision == revision
        &&& after.pending_map()[c].held_snapshot is None
        &&& after.pending_map()[c].generation_from_cache == cached
        &&& after.pending_map()[c].generation == (if cached {
            Some(before.registry_map()[registry_key_of(world)].generation)
        } else {
            None::<u64>
        })
        &&& after.tombstones() == before.tombstones()
        &&& after.registry_map() == before.registry_map()
    }
}


/// `kept` is what remains of the tombstones `grown` once those below `floor`
/// are dropped and then the newest until the bound holds: the smallest of
/// the tombstones not below `floor`, as many as the bound allows.
pub open spec fn pruned_from(grown: Set<u64>, floor: u64, kept: Set<u64>) -> bool {
    let eligible = grown.filter(|t: u64| t >= floor);
    &&& kept.subset_of(eligible)
    &&& kept.len() == (if eligible.len() <= MAX_CANCELLED { eligible.len() } else { MAX_CANCELLED as nat })
    &&& forall|k: u64, r: u64|
        #![trigger kept.contains(k), eligible.contains(r)]
        kept.contains(k) && eligible.contains(r) && !kept.contains(r) ==> k < r
}

/// `floor` is the oldest identifier in `ids`.
pub open spec fn is_oldest(ids: Set<u64>, floor: u64) -> bool {
    ids.contains(floor) && forall|c: u64| #[trigger] ids.contains(c) ==> floor <= c
}

impl SnapshotClient {
    /// Whether a correlation identifier is recognised as cancelled.
    pub closed spec fn is_cancelled(&self, correlation: u64) -> bool {
        correlation < self.cancelled_before || self.cancelled@.contains(correlation)
    }

    fn oldest_pending(&self) -> (r: Option<u64>)
        requires
            distinct_keys(self.pending@),
        ensures
            match r {
                Some(m) => self.pending_map().dom().contains(m) && forall|c: u64|
                    #[trigger] self.pending_map().dom().contains(c) ==> m <= c,
                None => self.pending_map().dom() == Set::<u64>::empty(),
            },
    {
        let mut best: Option<u64> = None;
        let mut i: usize = 0;
        while i < self.pending.len()
            invariant
                i <= self.pending@.len(),
                match best {
                    Some(m) => (exists|j: int| 0 <= j < i && self.pending@[j].0 == m) && forall|j: int|
                        0 <= j < i ==> m <= self.pending@[j].0,
                    None => i == 0,
                },
            decreases self.pending@.len() - i,
        {
            let c = self.pending[i].0;
            match best {
                Some(m) => {
                    if c < m {
                        best = Some(c);
                    }
                },
                None => {
                    best = Some(c);
                },
            }
            i = i + 1;
        }
        proof {
            lemma_map_of_dom_any(self.pending@);
        }
        best
    }

    /// Cancels the request `correlation` if it is in flight, and keeps a
    /// tombstone so a late registry for it is still recognised. Tombstones
    /// are bounded by [`MAX_CANCELLED`]: past the bound, those below the
    /// oldest request in flight give way to a lower bound below which every
    /// identifier counts as cancelled, and then the newest above it go.
    pub fn cancel(&mut self, correlation: u64) -> (removed: bool)
        requires
            old(self).wf(),
        ensures
            final(self).wf(),
            forall|n: u64| #[trigger] in_flight_from(*old(self), n) ==> in_flight_from(*final(self), n),
            removed == old(self).pending_map().dom().contains(correlation),
            final(self).pending_map() == old(self).pending_map().remove(correlation),
            final(self).registry_map() == old(self).registry_map(),
            final(self).spec_next_correlation() == old(self).spec_next_correlation(),
            final(self).spec_next_request_id() == old(self).spec_next_request_id(),
            final(self).spec_next_sequence() == old(self).spec_next_sequence(),
            final(self).spec_session_id() == old(self).spec_session_id(),
            final(self).tombstones().subset_of(old(self).tombstones().insert(correlation)),
            final(self).tombstones().len() <= MAX_CANCELLED,
            final(self).spec_cancelled_before() >= old(self).spec_cancelled_before(),
            !removed ==> final(self).tombstones() == old(self).tombstones() && final(self).spec_cancelled_before()
                == old(self).spec_cancelled_before(),
            removed && old(self).tombstones().insert(correlation).len() <= MAX_CANCELLED ==> final(self).tombstones()
                == old(self).tombstones().insert(correlation) && final(self).spec_cancelled_before()
                == old(self).spec_cancelled_before(),
            removed && old(self).tombstones().insert(correlation).len() > MAX_CANCELLED
                && final(self).pending_map().dom() == Set::<u64>::empty() ==> final(self).tombstones() == Set::<
                u64,
            >::empty() && final(self).spec_cancelled_before() == old(self).spec_next_correlation(),
            removed && old(self).tombstones().insert(correlation).len() > MAX_CANCELLED ==> forall|floor: u64|
                #[trigger] is_oldest(final(self).pending_map().dom(), floor) ==> {
                    &&& pruned_from(old(self).tombstones().insert(correlation), floor, final(self).tombstones())
                    &&& final(self).spec_cancelled_before() == (if floor > old(self).spec_cancelled_before() {
                        floor
                    } else {
                        old(self).spec_cancelled_before()
                    })
                },
    {
        let i = match self.position(correlation) {
            None => {
                return false;
            },
            Some(i) => i,
        };
        let ghost before = self.pending@;
        self.pending.remove(i);
        proof {
            lemma_map_of_remove(before, i as int);
            lemma_map_of_len(self.pending@);
            lemma_map_of_len(before);
            assert forall|c: u64| #[trigger] self.pending_map().dom().contains(c) implies c < self.next_correlation by {
                assert(map_of(before).dom().contains(c));
            }
        }
        self.cancelled.insert(correlation);
        let ghost grown = self.cancelled@;
        proof {
            self.cancelled.lemma_finite();
        }
        if self.cancelled.len() > MAX_CANCELLED {
            match self.oldest_pending() {
                None => {
                    let _ = self.cancelled.take_all();
                    self.cancelled_before = self.next_correlation;
                },
                Some(floor) => {
                    self.prune_tombstones(floor, Ghost(grown));
                },
            }
        }
        proof {
            self.cancelled.lemma_finite();
            assert(self.pending@ == before.remove(i as int));
        }
        true
    }

    /// Keeps the tombstones not below `floor`, the oldest request in flight,
    /// dropping the newest of them until the bound holds.
    fn prune_tombstones(&mut self, floor: u64, Ghost(grown): Ghost<Set<u64>>)
        requires
            old(self).cancelled.wf(),
            old(self).cancelled@ == grown,
            grown.finite(),
            grown.len() > MAX_CANCELLED,
            old(self).cancelled_before <= old(self).next_correlation,
            floor < old(self).next_correlation,
        ensures
            final(self).cancelled.wf(),
            pruned_from(grown, floor, final(self).cancelled@),
            final(self).cancelled@.len() <= MAX_CANCELLED,
            final(self).cancelled_before == (if floor > old(self).cancelled_before {
                floor
            } else {
                old(self).cancelled_before
            }),
            final(self).pending == old(self).pending,
            final(self).registries == old(self).registries,
            final(self).next_correlation == old(self).next_correlation,
            final(self).next_request_id == old(self).next_request_id,
            final(self).next_sequence == old(self).next_sequence,
            final(self).session_id == old(self).session_id,
    {
        let ghost eligible = grown.filter(|t: u64| t >= floor);
        self.cancelled.retain_at_least(floor);
        if floor > self.cancelled_before {
            self.cancelled_before = floor;
        }
        proof {
            self.cancelled.lemma_finite();
            assert(self.cancelled@ == eligible);
        }
        while self.cancelled.len() > MAX_CANCELLED
            invariant
                self.cancelled.wf(),
                self.cancelled@.finite(),
                self.cancelled@.subset_of(eligible),
                eligible.finite(),
                eligible == grown.filter(|t: u64| t >= floor),
                eligible.len() > MAX_CANCELLED ==> self.cancelled@.len() >= MAX_CANCELLED,
                eligible.len() <= MAX_CANCELLED ==> self.cancelled@ == eligible,
                forall|k: u64, r: u64|
                    #![trigger self.cancelled@.contains(k), eligible.contains(r)]
                    self.cancelled@.contains(k) && eligible.contains(r) && !self.cancelled@.contains(r) ==> k < r,
                self.pending == old(self).pending,
                self.registries == old(self).registries,
                self.next_correlation == old(self).next_correlation,
                self.next_request_id == old(self).next_request_id,
                self.next_sequence == old(self).next_sequence,
                self.session_id == old(self).session_id,
                self.cancelled_before == (if floor > old(self).cancelled_before {
                    floor
                } else {
                    old(self).cancelled_before
                }),
            ensures
                self.cancelled@.len() <= MAX_CANCELLED,
            decreases self.cancelled@.len(),
        {
            proof {
                vstd::set_lib::lemma_len_subset(self.cancelled@, eligible);
            }
            match self.cancelled.max_above(floor) {
                None => {
                    proof {
                        assert(self.cancelled@.subset_of(set![floor]));
                        vstd::set_lib::lemma_len_subset(self.cancelled@, set![floor]);
                    }
                    break;
                },
                Some(m) => {
                    let ghost before = self.cancelled@;
                    self.cancelled.remove(m);
                    proof {
                        self.cancelled.lemma_finite();
                        assert forall|k: u64, r: u64|
                            #![trigger self.cancelled@.contains(k), eligible.contains(r)]
                            self.cancelled@.contains(k) && eligible.contains(r) && !self.cancelled@.contains(r) implies k < r by {
                            assert(before.contains(k));
                            if r != m {
                                assert(!before.contains(r));
                            } else {
                                assert(k != m);
                                if k > floor {
                                    assert(k <= m);
                                }
                            }
                        }
                    }
                },
            }
        }
        proof {
            vstd::set_lib::lemma_len_subset(self.cancelled@, eligible);
        }
    }

    /// Drops every request, for a transport that went away: tombstones are
    /// replaced by a lower bound below which every identifier handed out
    /// counts as cancelled. Answers how many requests were dropped.
    pub fn abort_pending(&mut self) -> (count: usize)
        requires
            old(self).wf(),
        ensures
            final(self).wf(),
            forall|n: u64| #[trigger] in_flight_from(*old(self), n) ==> in_flight_from(*final(self), n),
            in_flight_from(*final(self), old(self).spec_next_correlation()),
            count == old(self).pending_map().dom().len(),
            final(self).pending_map() == Map::<u64, PendingRequest>::empty(),
            final(self).tombstones() == Set::<u64>::empty(),
            final(self).spec_cancelled_before() == old(self).spec_next_correlation(),
            final(self).registry_map() == old(self).registry_map(),
            final(self).spec_next_correlation() == old(self).spec_next_correlation(),
    {
        proof {
            lemma_map_of_len(self.pending@);
        }
        let count = self.pending.len();
        self.pending = Vec::new();
        let _ = self.cancelled.take_all();
        self.cancelled_before = self.next_correlation;
        proof {
            assert(self.pending_map() =~= Map::<u64, PendingRequest>::empty());
            self.cancelled.lemma_finite();
        }
        count
    }
}

/// Every key of the map is the key of some pair, and every pair's key is in
/// the map.
proof fn lemma_map_of_dom_any<V>(s: Seq<(u64, V)>)
    requires
        distinct_keys(s),
    ensures
        forall|k: u64| #[trigger] map_of(s).dom().contains(k) <==> exists|i: int| 0 <= i < s.len() && s[i].0 == k,
{
    assert forall|k: u64| #[trigger] map_of(s).dom().contains(k) <==> exists|i: int| 0 <= i < s.len() && s[i].0 == k by {
        lemma_map_of_dom(s, k);
    }
}


/// Whether an answer names the world, coordinate and revision its request
/// asked for.
pub open spec fn answer_matches(
    p: PendingRequest,
    world: Option<WorldIdentity>,
    coordinate: Option<ChunkCoordinate>,
    revision: u64,
) -> bool {
    &&& world matches Some(w) && w@ == p.world@
    &&& coordinate == Some(p.coordinate)
    &&& revision == p.revision
}

impl SnapshotClient {
    fn check_session(&self, session_id: &[u8]) -> (r: Result<(), SnapshotClientError>)
        ensures
            session_id@ == self.session_id@ ==> r is Ok,
            session_id@ != self.session_id@ ==> r == Err::<(), SnapshotClientError>(SnapshotClientError::InvalidSession),
    {
        if bytes_equal(session_id, &self.session_id) {
            Ok(())
        } else {
            Err(SnapshotClientError::InvalidSession)
        }
    }

    fn matches(p: &PendingRequest, world: Option<&WorldIdentity>, coordinate: Option<ChunkCoordinate>, revision: u64) -> (b:
        bool)
        ensures
            b == answer_matches(*p, match world { Some(w) => Some(*w), None => None }, coordinate, revision),
    {
        let world_ok = match world {
            Some(w) => w.same(&p.world),
            None => false,
        };
        let coordinate_ok = match coordinate {
            Some(c) => c.x == p.coordinate.x && c.z == p.coordinate.z,
            None => false,
        };
        world_ok && coordinate_ok && revision == p.revision
    }

    fn current_generation(&self, world: &WorldIdentity) -> (g: Option<u64>)
        requires
            self.wf(),
        ensures
            g == (if self.registry_map().dom().contains(registry_key_of(world@)) {
                Some(self.registry_map()[registry_key_of(world@)].generation)
            } else {
                None::<u64>
            }),
    {
        let key = registry_key(world);
        match self.registry_position(key.as_str()) {
            Some(i) => Some(self.registries[i].1.generation),
            None => None,
        }
    }

    /// The answer that a chunk cannot be captured: ignored where nothing is
    /// in flight under its correlation, refused (the request staying in
    /// flight) where it names another world, coordinate or revision, and
    /// otherwise ends the request and hands back the bridge's reason code.
    pub fn accept_missing(
        &mut self,
        session_id: &[u8],
        correlation: u64,
        world: Option<&WorldIdentity>,
        coordinate: Option<ChunkCoordinate>,
        revision: u64,
        reason: i32,
    ) -> (r: Result<Option<i32>, SnapshotClientError>)
        requires
            old(self).wf(),
        ensures
            final(self).wf(),
            forall|n: u64| #[trigger] in_flight_from(*old(self), n) ==> in_flight_from(*final(self), n),
            final(self).registry_map() == old(self).registry_map(),
            final(self).tombstones() == old(self).tombstones(),
            final(self).spec_cancelled_before() == old(self).spec_cancelled_before(),
            session_id@ != old(self).spec_session_id() ==> r == Err::<Option<i32>, SnapshotClientError>(
                SnapshotClientError::InvalidSession,
            ) && final(self).pending_map() == old(self).pending_map(),
            session_id@ == old(self).spec_session_id() && old(self).pending_map().dom().contains(correlation) && (
                revision != old(self).pending_map()[correlation].revision
                || coordinate != Some(old(self).pending_map()[correlation].coordinate)
                || !(world matches Some(w) && w@ == old(self).pending_map()[correlation].world@)
            ) ==> r == Err::<Option<i32>, SnapshotClientError>(SnapshotClientError::InvalidResponse("missing binding mismatch"))
                && final(self).pending_map() == old(self).pending_map(),
            session_id@ == old(self).spec_session_id() ==> if !old(self).pending_map().dom().contains(correlation) {
                r == Ok::<Option<i32>, SnapshotClientError>(None) && final(self).pending_map() == old(self).pending_map()
            } else if !answer_matches(
                old(self).pending_map()[correlation],
                match world { Some(w) => Some(*w), None => None },
                coordinate,
                revision,
            ) {
                r == Err::<Option<i32>, SnapshotClientError>(SnapshotClientError::InvalidResponse("missing binding mismatch"))
                    && final(self).pending_map() == old(self).pending_map()
            } else {
                r == Ok::<Option<i32>, SnapshotClientError>(Some(reason)) && final(self).pending_map() == old(
                    self,
                ).pending_map().remove(correlation)
            },
    {
        if let Err(e) = self.check_session(session_id) {
            return Err(e);
        }
        let i = match self.position(correlation) {
            None => {
                return Ok(None);
            },
            Some(i) => i,
        };
        if !Self::matches(&self.pending[i].1, world, coordinate, revision) {
            return Err(SnapshotClientError::InvalidResponse("missing binding mismatch"));
        }
        let ghost before = self.pending@;
        self.pending.remove(i);
        proof {
            lemma_map_of_remove(before, i as int);
            lemma_map_of_len(self.pending@);
            lemma_map_of_len(before);
            assert forall|c: u64| #[trigger] self.pending_map().dom().contains(c) implies c < self.next_correlation by {
                assert(map_of(before).dom().contains(c));
            }
        }
        Ok(Some(reason))
    }

    /// A chunk snapshot answer: ignored where nothing is in flight under its
    /// correlation, refused (the request staying in flight) where it names
    /// another world, coordinate or revision. Otherwise it is decoded with
    /// the chosen registry generation, or held until a registry arrives
    /// where there is none.
    pub fn accept_snapshot(
        &mut self,
        session_id: &[u8],
        correlation: u64,
        world: Option<&WorldIdentity>,
        coordinate: Option<ChunkCoordinate>,
        revision: u64,
        snapshot: Vec<u8>,
    ) -> (r: Result<SnapshotStep, SnapshotClientError>)
        requires
            old(self).wf(),
        ensures
            final(self).wf(),
            forall|n: u64| #[trigger] in_flight_from(*old(self), n) ==> in_flight_from(*final(self), n),
            final(self).registry_map() == old(self).registry_map(),
            final(self).tombstones() == old(self).tombstones(),
            final(self).spec_cancelled_before() == old(self).spec_cancelled_before(),
            final(self).pending_map().dom() == old(self).pending_map().dom(),
            session_id@ != old(self).spec_session_id() ==> r == Err::<SnapshotStep, SnapshotClientError>(
                SnapshotClientError::InvalidSession,
            ) && final(self).pending_map() == old(self).pending_map(),
            session_id@ == old(self).spec_session_id() && old(self).pending_map().dom().contains(correlation) && (
                revision != old(self).pending_map()[correlation].revision
                || coordinate != Some(old(self).pending_map()[correlation].coordinate)
                || !(world matches Some(w) && w@ == old(self).pending_map()[correlation].world@)
            ) ==> r == Err::<SnapshotStep, SnapshotClientError>(SnapshotClientError::InvalidResponse("snapshot binding mismatch"))
                && final(self).pending_map() == old(self).pending_map(),
            session_id@ == old(self).spec_session_id() ==> if !old(self).pending_map().dom().contains(correlation) {
                r == Ok::<SnapshotStep, SnapshotClientError>(SnapshotStep::Nothing) && final(self).pending_map() == old(
                    self,
                ).pending_map()
            } else {
                let p = old(self).pending_map()[correlation];
                let current = if old(self).registry_map().dom().contains(registry_key_of(p.world@)) {
                    Some(old(self).registry_map()[registry_key_of(p.world@)].generation)
                } else {
                    None::<u64>
                };
                if !answer_matches(p, match world { Some(w) => Some(*w), None => None }, coordinate, revision) {
                    r == Err::<SnapshotStep, SnapshotClientError>(
                        SnapshotClientError::InvalidResponse("snapshot binding mismatch"),
                    ) && final(self).pending_map() == old(self).pending_map()
                } else {
                    match chosen_generation(p.generation_from_cache, p.generation, current) {
                        Some(g) => r == Ok::<SnapshotStep, SnapshotClientError>(SnapshotStep::Decode(g))
                            && final(self).pending_map() == old(self).pending_map(),
                        None => {
                            &&& r == Ok::<SnapshotStep, SnapshotClientError>(SnapshotStep::Nothing)
                            &&& final(self).pending_map()[correlation].held_snapshot matches Some(h) && h@ == snapshot@
                            &&& final(self).pending_map()[correlation].generation == p.generation
                            &&& final(self).pending_map()[correlation].world@ == p.world@
                            &&& final(self).pending_map()[correlation].coordinate == p.coordinate
                            &&& final(self).pending_map()[correlation].revision == p.revision
                            &&& final(self).pending_map()[correlation].generation_from_cache == p.generation_from_cache
                            &&& forall|k: u64| k != correlation && #[trigger] old(self).pending_map().dom().contains(k)
                                ==> final(self).pending_map()[k] == old(self).pending_map()[k]
                        },
                    }
                }
            },
    {
        if let Err(e) = self.check_session(session_id) {
            return Err(e);
        }
        let i = match self.position(correlation) {
            None => {
                return Ok(SnapshotStep::Nothing);
            },
            Some(i) => i,
        };
        if !Self::matches(&self.pending[i].1, world, coordinate, revision) {
            return Err(SnapshotClientError::InvalidResponse("snapshot binding mismatch"));
        }
        let current = self.current_generation(&self.pending[i].1.world);
        let bound = self.pending[i].1.generation;
        let chosen = if self.pending[i].1.generation_from_cache {
            if current.is_some() { current } else { bound }
        } else {
            if bound.is_some() { bound } else { current }
        };
        match chosen {
            Some(g) => Ok(SnapshotStep::Decode(g)),
            None => {
                let ghost before = self.pending@;
                let mut held = self.pending[i].1.clone_request();
                held.held_snapshot = Some(snapshot);
                self.pending.set(i, (correlation, held));
                proof {
                    lemma_map_of_update(before, i as int, self.pending@[i as int].1);
                    assert(self.pending@ =~= before.update(i as int, (before[i as int].0, self.pending@[i as int].1)));
                    lemma_map_of_len(self.pending@);
                    lemma_map_of_len(before);
                    assert forall|c: u64| #[trigger] self.pending_map().dom().contains(c) implies c < self.next_correlation by {
                        assert(map_of(before).dom().contains(c));
                    }
                    assert(self.pending_map().dom() =~= map_of(before).dom());
                }
                Ok(SnapshotStep::Nothing)
            },
        }
    }

    /// Ends the request `correlation` once its snapshot decoded.
    pub fn complete(&mut self, correlation: u64)
        requires
            old(self).wf(),
        ensures
            final(self).wf(),
            forall|n: u64| #[trigger] in_flight_from(*old(self), n) ==> in_flight_from(*final(self), n),
            final(self).pending_map() == old(self).pending_map().remove(correlation),
            final(self).registry_map() == old(self).registry_map(),
            final(self).tombstones() == old(self).tombstones(),
            final(self).spec_cancelled_before() == old(self).spec_cancelled_before(),
    {
        match self.position(correlation) {
            None => {
                assert(self.pending_map() =~= self.pending_map().remove(correlation));
            },
            Some(i) => {
                let ghost before = self.pending@;
                self.pending.remove(i);
                proof {
                    lemma_map_of_remove(before, i as int);
                    lemma_map_of_len(self.pending@);
                    lemma_map_of_len(before);
                    assert forall|c: u64| #[trigger] self.pending_map().dom().contains(c) implies c < self.next_correlation by {
                        assert(map_of(before).dom().contains(c));
                    }
                }
            },
        }
    }
}

impl PendingRequest {
    /// A copy of the request.
    pub fn clone_request(&self) -> (r: PendingRequest)
        ensures
            r.world@ == self.world@,
            r.coordinate == self.coordinate,
            r.revision == self.revision,
            r.generation == self.generation,
            r.generation_from_cache == self.generation_from_cache,
            match self.held_snapshot {
                Some(h) => r.held_snapshot matches Some(k) && k@ == h@,
                None => r.held_snapshot is None,
            },
    {
        PendingRequest {
            world: self.world.duplicate(),
            coordinate: self.coordinate,
            revision: self.revision,
            generation: self.generation,
            generation_from_cache: self.generation_from_cache,
            held_snapshot: match &self.held_snapshot {
                Some(h) => Some(copy_bytes(h.as_slice())),
                None => None,
            },
        }
    }
}


/// How a registry replacement is routed before any registry changes: the
/// session must match; one that names no world is ignored for a cancelled
/// request and refused otherwise; one for a request in flight must name its
/// world and revision; one for no request in flight counts only for a
/// cancelled one; and one older than the cached registry is ignored.
/// `Some(true)` means it goes on, `Some(false)` that it is ignored, and
/// `None` that it is refused.
pub open spec fn registry_route(
    c: SnapshotClient,
    correlation: u64,
    world: Option<WorldIdentity>,
    revision: u64,
) -> Option<bool> {
    match world {
        None => if c.is_cancelled(correlation) {
            Some(false)
        } else {
            None
        },
        Some(w) => {
            let key = registry_key_of(w@);
            let current_revision = if c.registry_map().dom().contains(key) {
                c.registry_map()[key].revision
            } else {
                0
            };
            if c.pending_map().dom().contains(correlation) && (c.pending_map()[correlation].revision != revision
                || c.pending_map()[correlation].world@ != w@) {
                Some(false)
            } else if !c.pending_map().dom().contains(correlation) && !c.is_cancelled(correlation) {
                Some(false)
            } else if revision < current_revision {
                Some(false)
            } else {
                Some(true)
            }
        },
    }
}

/// `b` is the request `a` bound to registry generation `g`.
pub open spec fn rebound(a: PendingRequest, b: PendingRequest, g: u64, from_cache: bool) -> bool {
    &&& b.world@ == a.world@
    &&& b.coordinate == a.coordinate
    &&& b.revision == a.revision
    &&& b.generation == Some(g)
    &&& b.generation_from_cache == from_cache
    &&& match a.held_snapshot {
        Some(h) => b.held_snapshot matches Some(k) && k@ == h@,
        None => b.held_snapshot is None,
    }
}

impl SnapshotClient {
    /// Takes a held snapshot of request `correlation` that a registry
    /// generation now lets decode.
    fn take_held(&mut self, correlation: u64) -> (r: Option<HeldSnapshot>)
        requires
            old(self).wf(),
        ensures
            final(self).wf(),
            final(self).next_correlation == old(self).next_correlation,
            final(self).registry_map() == old(self).registry_map(),
            final(self).tombstones() == old(self).tombstones(),
            final(self).spec_cancelled_before() == old(self).spec_cancelled_before(),
            final(self).pending_map().dom() == old(self).pending_map().dom(),
            forall|k: u64| k != correlation && #[trigger] old(self).pending_map().dom().contains(k)
                ==> final(self).pending_map()[k] == old(self).pending_map()[k],
            r is Some ==> old(self).pending_map().dom().contains(correlation) && old(self).pending_map()[correlation].held_snapshot is Some,
            old(self).pending_map().dom().contains(correlation) ==> {
                let p = old(self).pending_map()[correlation];
                let q = final(self).pending_map()[correlation];
                &&& q.world@ == p.world@
                &&& q.coordinate == p.coordinate
                &&& q.revision == p.revision
                &&& q.generation == p.generation
                &&& q.generation_from_cache == p.generation_from_cache
            },
            old(self).pending_map().dom().contains(correlation) && r is None ==> final(self).pending_map() == old(self).pending_map(),
            old(self).pending_map().dom().contains(correlation) && old(self).pending_map()[correlation].held_snapshot is Some
                && (old(self).pending_map()[correlation].generation is Some || old(self).registry_map().dom().contains(
                registry_key_of(old(self).pending_map()[correlation].world@),
            )) ==> r is Some,
            match r {
                Some(h) => {
                    let p = old(self).pending_map()[correlation];
                    &&& p.held_snapshot matches Some(s) && s@ == h.snapshot@
                    &&& Some(h.generation) == (if p.generation is Some {
                        p.generation
                    } else if old(self).registry_map().dom().contains(registry_key_of(p.world@)) {
                        Some(old(self).registry_map()[registry_key_of(p.world@)].generation)
                    } else {
                        None::<u64>
                    })
                    &&& final(self).pending_map()[correlation].held_snapshot is None
                },
                None => final(self).pending_map() == old(self).pending_map(),
            },
    {
        let i = match self.position(correlation) {
            None => {
                return None;
            },
            Some(i) => i,
        };
        let generation = match self.pending[i].1.generation {
            Some(g) => g,
            None => match self.current_generation(&self.pending[i].1.world) {
                Some(g) => g,
                None => {
                    return None;
                },
            },
        };
        let snapshot = match &self.pending[i].1.held_snapshot {
            Some(h) => copy_bytes(h.as_slice()),
            None => {
                return None;
            },
        };
        let ghost before = self.pending@;
        let mut emptied = self.pending[i].1.clone_request();
        emptied.held_snapshot = None;
        self.pending.set(i, (correlation, emptied));
        proof {
            lemma_map_of_update(before, i as int, self.pending@[i as int].1);
            assert(self.pending@ =~= before.update(i as int, (before[i as int].0, self.pending@[i as int].1)));
            lemma_map_of_len(self.pending@);
            lemma_map_of_len(before);
            assert forall|c: u64| #[trigger] self.pending_map().dom().contains(c) implies c < self.next_correlation by {
                assert(map_of(before).dom().contains(c));
            }
            assert(self.pending_map().dom() =~= map_of(before).dom());
        }
        Some(HeldSnapshot { snapshot, generation })
    }

    fn set_generation(&mut self, i: usize, generation: u64, from_cache: bool)
        requires
            old(self).wf(),
            i < old(self).pending@.len(),
        ensures
            final(self).wf(),
            final(self).next_correlation == old(self).next_correlation,
            final(self).registry_map() == old(self).registry_map(),
            final(self).tombstones() == old(self).tombstones(),
            final(self).spec_cancelled_before() == old(self).spec_cancelled_before(),
            final(self).pending@.len() == old(self).pending@.len(),
            final(self).pending@[i as int].0 == old(self).pending@[i as int].0,
            final(self).pending_map().dom() == old(self).pending_map().dom(),
            forall|k: u64| k != old(self).pending@[i as int].0 && #[trigger] old(self).pending_map().dom().contains(k)
                ==> final(self).pending_map()[k] == old(self).pending_map()[k],
            rebound(
                old(self).pending_map()[old(self).pending@[i as int].0],
                final(self).pending_map()[old(self).pending@[i as int].0],
                generation,
                from_cache,
            ),
            final(self).registries == old(self).registries,
            final(self).next_correlation == old(self).next_correlation,
    {
        let ghost before = self.pending@;
        let correlation = self.pending[i].0;
        let mut bound = self.pending[i].1.clone_request();
        bound.generation = Some(generation);
        bound.generation_from_cache = from_cache;
        self.pending.set(i, (correlation, bound));
        proof {
            lemma_map_of_update(before, i as int, self.pending@[i as int].1);
            assert(self.pending@ =~= before.update(i as int, (before[i as int].0, self.pending@[i as int].1)));
            lemma_map_of_len(self.pending@);
            lemma_map_of_len(before);
            lemma_map_of_dom(before, correlation);
            assert(before[i as int].0 == correlation);
            assert(map_of(before).dom().contains(correlation));
            assert forall|c: u64| #[trigger] self.pending_map().dom().contains(c) implies c < self.next_correlation by {
                assert(old(self).pending_map().dom().contains(c));
            }
            assert(self.pending_map().dom() =~= map_of(before).dom());
        }
    }
}


/// The held snapshot that a request hands out once bound to a generation:
/// its own, decoded with its bound generation or else `gen`.
pub open spec fn held_result(p: PendingRequest, gen: u64, h: Option<HeldSnapshot>) -> bool {
    match p.held_snapshot {
        None => h is None,
        Some(s) => h matches Some(x) && x.snapshot@ == s@ && x.generation == (if p.generation is Some {
            p.generation->0
        } else {
            gen
        }),
    }
}

/// What the cache holds for a key once a replacement was applied.
pub open spec fn cached_as(e: CachedRegistry, revision: u64, generation: u64, replacement: Seq<u8>) -> bool {
    &&& e.revision == revision
    &&& e.generation == generation
    &&& e.replacement matches Some(v) && v@ == replacement
}

impl SnapshotClient {
    /// Routes a registry replacement (see [`registry_route`]). One that goes
    /// on and equals the cached replacement binds a request that has no
    /// generation yet to the cached one and hands out its held snapshot;
    /// any other that goes on must be applied to the world's registry.
    pub fn begin_registry(
        &mut self,
        session_id: &[u8],
        correlation: u64,
        world: Option<&WorldIdentity>,
        revision: u64,
        replacement: &Vec<u8>,
    ) -> (r: Result<RegistryStep, SnapshotClientError>)
        requires
            old(self).wf(),
        ensures
            final(self).wf(),
            forall|n: u64| #[trigger] in_flight_from(*old(self), n) ==> in_flight_from(*final(self), n),
            final(self).registry_map() == old(self).registry_map(),
            final(self).tombstones() == old(self).tombstones(),
            final(self).spec_cancelled_before() == old(self).spec_cancelled_before(),
            final(self).pending_map().dom() == old(self).pending_map().dom(),
            session_id@ != old(self).spec_session_id() ==> r == Err::<RegistryStep, SnapshotClientError>(
                SnapshotClientError::InvalidSession,
            ) && final(self).pending_map() == old(self).pending_map(),
            session_id@ == old(self).spec_session_id() ==> match registry_route(
                *old(self),
                correlation,
                match world { Some(w) => Some(*w), None => None },
                revision,
            ) {
                None => r == Err::<RegistryStep, SnapshotClientError>(
                    SnapshotClientError::InvalidResponse("registry missing world"),
                ) && final(self).pending_map() == old(self).pending_map(),
                Some(false) => r == Ok::<RegistryStep, SnapshotClientError>(RegistryStep::Ignore)
                    && final(self).pending_map() == old(self).pending_map(),
                Some(true) => {
                    let key = registry_key_of(world->0@);
                    let cached = old(self).registry_map().dom().contains(key) && (old(self).registry_map()[key].replacement
                        matches Some(v) && v@ == replacement@);
                    if !cached {
                        r == Ok::<RegistryStep, SnapshotClientError>(RegistryStep::Replace) && final(self).pending_map()
                            == old(self).pending_map()
                    } else {
                        let gen = old(self).registry_map()[key].generation;
                        &&& r matches Ok(RegistryStep::Unchanged(h))
                        &&& (old(self).pending_map().dom().contains(correlation) ==> held_result(
                            old(self).pending_map()[correlation],
                            gen,
                            h,
                        ) && final(self).pending_map()[correlation].generation == (if old(self).pending_map()[correlation].generation is Some {
                            old(self).pending_map()[correlation].generation
                        } else {
                            Some(gen)
                        }))
                        &&& (!old(self).pending_map().dom().contains(correlation) ==> h is None
                            && final(self).pending_map() == old(self).pending_map())
                        &&& forall|k: u64| k != correlation && #[trigger] old(self).pending_map().dom().contains(k)
                            ==> final(self).pending_map()[k] == old(self).pending_map()[k]
                    }
                },
            },
    {
        if let Err(e) = self.check_session(session_id) {
            return Err(e);
        }
        let cancelled = correlation < self.cancelled_before || self.cancelled.contains(correlation);
        let w = match world {
            None => {
                if cancelled {
                    return Ok(RegistryStep::Ignore);
                }
                return Err(SnapshotClientError::InvalidResponse("registry missing world"));
            },
            Some(w) => w,
        };
        match self.position(correlation) {
            Some(i) => {
                if self.pending[i].1.revision != revision || !self.pending[i].1.world.same(w) {
                    return Ok(RegistryStep::Ignore);
                }
            },
            None => {
                if !cancelled {
                    return Ok(RegistryStep::Ignore);
                }
            },
        }
        let key = registry_key(w);
        let pos = self.registry_position(key.as_str());
        let current_revision = match pos {
            Some(k) => self.registries[k].1.revision,
            None => 0,
        };
        if revision < current_revision {
            return Ok(RegistryStep::Ignore);
        }
        let k = match pos {
            None => {
                return Ok(RegistryStep::Replace);
            },
            Some(k) => k,
        };
        let unchanged = match &self.registries[k].1.replacement {
            Some(v) => bytes_equal(v.as_slice(), replacement.as_slice()),
            None => false,
        };
        if !unchanged {
            return Ok(RegistryStep::Replace);
        }
        let generation = self.registries[k].1.generation;
        match self.position(correlation) {
            Some(i) => {
                if self.pending[i].1.generation.is_none() {
                    let from_cache = self.pending[i].1.generation_from_cache;
                    self.set_generation(i, generation, from_cache);
                }
            },
            None => {},
        }
        let held = self.take_held(correlation);
        Ok(RegistryStep::Unchanged(held))
    }

    fn put_registry(&mut self, key: String, entry: CachedRegistry)
        requires
            old(self).wf(),
        ensures
            final(self).wf(),
            final(self).registry_map() == old(self).registry_map().insert(key@, entry),
            final(self).pending == old(self).pending,
            final(self).cancelled == old(self).cancelled,
            final(self).cancelled_before == old(self).cancelled_before,
            final(self).next_correlation == old(self).next_correlation,
    {
        let ghost before = self.registries@.map_values(|p: (String, CachedRegistry)| (p.0@, p.1));
        let ghost k = key@;
        let ghost e = entry;
        let ghost old_pending = self.pending_map();
        match self.registry_position(key.as_str()) {
            Some(i) => {
                self.registries.set(i, (key, entry));
                proof {
                    let after = self.registries@.map_values(|p: (String, CachedRegistry)| (p.0@, p.1));
                    assert(after =~= before.update(i as int, (before[i as int].0, e)));
                    lemma_map_of_update(before, i as int, e);
                }
            },
            None => {
                self.registries.push((key, entry));
                proof {
                    let after = self.registries@.map_values(|p: (String, CachedRegistry)| (p.0@, p.1));
                    assert(after =~= before.push((k, e)));
                    lemma_map_of_push(before, k, e);
                }
            },
        }
        proof {
            assert(self.pending_map() == old_pending);
            assert forall|c: u64| #[trigger] self.pending_map().dom().contains(c) implies c < self.next_correlation by {
                assert(old(self).pending_map().dom().contains(c));
            }
        }
    }

    /// Records that the world's registry took a replacement and now has
    /// generation `generation`. The request `correlation`, if in flight and
    /// not bound by an earlier replacement, is bound to it, and its held
    /// snapshot, if any, is handed out to decode.
    pub fn registry_replaced(
        &mut self,
        correlation: u64,
        world: &WorldIdentity,
        revision: u64,
        replacement: Vec<u8>,
        generation: u64,
    ) -> (h: Option<HeldSnapshot>)
        requires
            old(self).wf(),
        ensures
            final(self).wf(),
            forall|n: u64| #[trigger] in_flight_from(*old(self), n) ==> in_flight_from(*final(self), n),
            final(self).registry_map().dom() == old(self).registry_map().dom().insert(registry_key_of(world@)),
            cached_as(final(self).registry_map()[registry_key_of(world@)], revision, generation, replacement@),
            forall|k: Seq<char>| k != registry_key_of(world@) && #[trigger] old(self).registry_map().dom().contains(k)
                ==> final(self).registry_map()[k] == old(self).registry_map()[k],
            final(self).tombstones() == old(self).tombstones(),
            final(self).pending_map().dom() == old(self).pending_map().dom(),
            forall|k: u64| k != correlation && #[trigger] old(self).pending_map().dom().contains(k)
                ==> final(self).pending_map()[k] == old(self).pending_map()[k],
            old(self).pending_map().dom().contains(correlation) ==> {
                let p = old(self).pending_map()[correlation];
                let rebinds = p.generation is None || p.generation_from_cache;
                &&& held_result(if rebinds { PendingRequest { generation: Some(generation), ..p } } else { p }, generation, h)
                &&& final(self).pending_map()[correlation].generation == if rebinds { Some(generation) } else { p.generation }
                &&& final(self).pending_map()[correlation].generation_from_cache == (!rebinds && p.generation_from_cache)
            },
            !old(self).pending_map().dom().contains(correlation) ==> h is None && final(self).pending_map() == old(self).pending_map(),
    {
        let key = registry_key(world);
        let ghost rep = replacement@;
        self.put_registry(key, CachedRegistry { revision, generation, replacement: Some(replacement) });
        match self.position(correlation) {
            Some(i) => {
                if self.pending[i].1.generation.is_none() || self.pending[i].1.generation_from_cache {
                    self.set_generation(i, generation, false);
                }
            },
            None => {},
        }
        self.take_held(correlation)
    }

    /// Records that the world's registry refused a replacement: a world
    /// without a registry gets an empty one at revision zero, with the
    /// generation `generation`.
    pub fn registry_refused(&mut self, world: &WorldIdentity, generation: u64)
        requires
            old(self).wf(),
        ensures
            final(self).wf(),
            forall|n: u64| #[trigger] in_flight_from(*old(self), n) ==> in_flight_from(*final(self), n),
            final(self).pending_map() == old(self).pending_map(),
            final(self).tombstones() == old(self).tombstones(),
            old(self).registry_map().dom().contains(registry_key_of(world@)) ==> final(self).registry_map() == old(
                self,
            ).registry_map(),
            !old(self).registry_map().dom().contains(registry_key_of(world@)) ==> final(self).registry_map() == old(
                self,
            ).registry_map().insert(
                registry_key_of(world@),
                CachedRegistry { revision: 0, generation, replacement: None },
            ),
    {
        let key = registry_key(world);
        if self.registry_position(key.as_str()).is_some() {
            return;
        }
        self.put_registry(key, CachedRegistry { revision: 0, generation, replacement: None });
        proof {
            lemma_in_flight_kept(*old(self), *self);
        }
    }
}


impl SnapshotClient {
    /// Whether the request `correlation` is in flight.
    pub fn is_pending(&self, correlation: u64) -> (b: bool)
        requires
            self.wf(),
        ensures
            b == self.pending_map().dom().contains(correlation),
    {
        self.position(correlation).is_some()
    }

    /// How many cancellation tombstones are kept.
    pub fn tombstone_count(&self) -> (n: usize)
        requires
            self.wf(),
        ensures
            n == self.tombstones().len(),
            n <= MAX_CANCELLED,
    {
        self.cancelled.len()
    }
}

/// In every state the client reaches, at most [`MAX_IN_FLIGHT`] requests
/// are in flight and at most [`MAX_CANCELLED`] tombstones are kept, and no
/// correlation identifier in flight is one not yet handed out.
pub proof fn lemma_client_bounds(c: SnapshotClient)
    requires
        c.wf(),
    ensures
        c.pending_map().dom().len() <= MAX_IN_FLIGHT,
        c.tombstones().len() <= MAX_CANCELLED,
        forall|k: u64| #[trigger] c.pending_map().dom().contains(k) ==> k < c.spec_next_correlation(),
{
    lemma_map_of_len(c.pending@);
}

/// A snapshot that came before its world's registry is completed when the
/// registry arrives: for a request that waits unbound with a held snapshot,
/// while its world has no registry, a replacement for its world and revision
/// on its correlation goes on and must be applied (it cannot be the cached
/// one), and what applying it hands back is exactly the held snapshot, bound
/// to the new registry's generation.
pub proof fn lemma_registry_completes_held_snapshot(
    c: SnapshotClient,
    correlation: u64,
    world: WorldIdentity,
    generation: u64,
    h: Option<HeldSnapshot>,
)
    requires
        c.wf(),
        c.pending_map().dom().contains(correlation),
        c.pending_map()[correlation].world@ == world@,
        c.pending_map()[correlation].generation is None,
        c.pending_map()[correlation].held_snapshot is Some,
        !c.registry_map().dom().contains(registry_key_of(world@)),
        held_result(
            PendingRequest { generation: Some(generation), ..c.pending_map()[correlation] },
            generation,
            h,
        ),
    ensures
        registry_route(c, correlation, Some(world), c.pending_map()[correlation].revision) == Some(true),
        h matches Some(x) && x.snapshot@ == (c.pending_map()[correlation].held_snapshot->0)@
            && x.generation == generation,
{
}

/// Dropping the pending requests (as [`SnapshotClient::abort_pending`] does)
/// is final for every request issued before: whatever the client does later,
/// none of them is in flight again, so an answer to one of them is ignored
/// (`accept_missing` answers `Ok(None)` and `accept_snapshot` `Nothing`).
pub proof fn lemma_dropped_requests_stay_dropped(c: SnapshotClient, n: u64, correlation: u64)
    requires
        in_flight_from(c, n),
        correlation < n,
    ensures
        !c.pending_map().dom().contains(correlation),
{
}

/// An answer is bound to the request in flight under its correlation only
/// where it names that request's world, chunk and revision: an answer that
/// names another revision, another chunk, or another world or none, is no
/// answer to it, whatever else it carries; and the answer that names exactly
/// what was asked for is one.
pub proof fn lemma_answer_binds_to_its_request(
    p: PendingRequest,
    world: Option<WorldIdentity>,
    coordinate: Option<ChunkCoordinate>,
    revision: u64,
)
    ensures
        revision != p.revision ==> !answer_matches(p, world, coordinate, revision),
        coordinate != Some(p.coordinate) ==> !answer_matches(p, world, coordinate, revision),
        !(world matches Some(w) && w@ == p.world@) ==> !answer_matches(p, world, coordinate, revision),
        world matches Some(w) && w@ == p.world@ ==> answer_matches(p, world, Some(p.coordinate), p.revision),
{
}

} // verus!
