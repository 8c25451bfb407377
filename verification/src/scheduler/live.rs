//! The decision core of the live bridge dispatchers: which requests are
//! outstanding, what each bridge message does to them, and what must be
//! delivered to the waiting callers.
use vstd::prelude::*;
use std::collections::HashMap;
use crate::dirty_resync::{
    MAX_ENUMERATION_ITEMS, ENUMERATION_STATUS_COMPLETE, EnumerationRequestView, bridge_identity_ok, world_ok, WorldEnumerationComplete, WorldEnumerationError,
    WorldEnumerationItem, WorldEnumerationRequest, enumeration_completion_verdict, enumeration_item_verdict,
    enumeration_request_verdict, page_verdict, validate_enumeration_completion, validate_enumeration_item,
    validate_enumeration_page, validate_enumeration_request,
};
use crate::idset::IdSet;
use crate::snapshot_client::{SnapshotClient, SnapshotClientError, request_outcome};
use crate::wire::WorldIdentity;
use crate::scheduler::BridgeError;
use crate::text::{enumeration_error_text, push_str};
use crate::paths::same_text;
use crate::wire::{ChunkCoordinate, Envelope, Payload, PROTOCOL_MAJOR, PROTOCOL_MINOR, bytes_equal, copy_bytes};

verus! {

/// The most coordinates one enumeration may aggregate over all its pages.
pub const MAX_ENUMERATED_COORDINATES: u32 = 16384;

/// What is gathered for one outstanding enumeration.
#[derive(Debug, Clone)]
pub struct EnumerationEntry {
    pub request: WorldEnumerationRequest,
    pub coordinates: Vec<ChunkCoordinate>,
    pub page_count: u32,
}

/// The bridge session that enumeration requests are bound to.
#[derive(Debug, Clone)]
pub struct Activation {
    pub bridge_id: Vec<u8>,
    pub session_id: Vec<u8>,
    pub config_revision: u64,
}

/// A result handed to the caller waiting on request `id`.
#[derive(Debug)]
pub struct Delivery {
    pub id: u64,
    pub outcome: Result<Vec<ChunkCoordinate>, BridgeError>,
}

/// What one bridge message did.
#[derive(Debug)]
pub struct EnumerationStep {
    /// Whether the message was consumed, or the protocol error it carried.
    pub accepted: Result<bool, WorldEnumerationError>,
    /// The result for a waiting caller, if one is owed now.
    pub delivery: Option<Delivery>,
    /// Whether the request's cancellation watcher is no longer needed.
    pub release: bool,
    /// The request for the next page, to be sent to the bridge.
    pub next_page: Option<Envelope>,
}

/// Whether `d` is exactly the failure owed to a caller of `id` that was waiting
/// when `was_pending` holds, and nothing otherwise.
pub open spec fn delivers_failure(d: Option<Delivery>, id: u64, was_pending: bool, permanent: bool, message: Seq<char>) -> bool {
    if was_pending {
        match d {
            Some(dl) => dl.id == id && match dl.outcome {
                Err(BridgeError::Permanent(m)) => permanent && m@ == message,
                Err(BridgeError::Transient(m)) => !permanent && m@ == message,
                Ok(_) => false,
            },
            None => false,
        }
    } else {
        d is None
    }
}

/// Whether two coordinates are equal.
pub fn same_coordinate(a: &ChunkCoordinate, b: &ChunkCoordinate) -> (r: bool)
    ensures
        r == (*a == *b),
{
    a.x == b.x && a.z == b.z
}

/// Whether some coordinate occurs twice.
pub fn has_duplicate_coordinate(coordinates: &Vec<ChunkCoordinate>) -> (r: bool)
    ensures
        r == !coordinates@.no_duplicates(),
{
    let n = coordinates.len();
    let mut i: usize = 0;
    while i < n
        invariant
            n == coordinates@.len(),
            i <= n,
            forall|a: int, b: int| 0 <= a < b < n && a < i ==> coordinates@[a] != coordinates@[b],
        decreases n - i,
    {
        let mut j: usize = i + 1;
        while j < n
            invariant
                n == coordinates@.len(),
                i < n,
                i + 1 <= j <= n,
                forall|a: int, b: int| 0 <= a < b < n && a < i ==> coordinates@[a] != coordinates@[b],
                forall|b: int| i < b < j ==> coordinates@[i as int] != coordinates@[b],
            decreases n - j,
        {
            if same_coordinate(&coordinates[i], &coordinates[j]) {
                return true;
            }
            j = j + 1;
        }
        i = i + 1;
    }
    false
}

/// The envelope that carries an enumeration request for correlation `id`.
pub open spec fn is_request_envelope(e: Envelope, request: EnumerationRequestView, id: u64) -> bool {
    &&& e.protocol_major == PROTOCOL_MAJOR
    &&& e.protocol_minor == PROTOCOL_MINOR
    &&& e.session_id@ == request.session_id
    &&& e.sequence == 0
    &&& e.correlation_id == id
    &&& e.payload matches Some(Payload::WorldEnumerationRequest(r)) && r@ == request
}

fn request_envelope(request: WorldEnumerationRequest, id: u64) -> (e: Envelope)
    ensures
        is_request_envelope(e, request@, id),
{
    Envelope {
        protocol_major: PROTOCOL_MAJOR,
        protocol_minor: PROTOCOL_MINOR,
        session_id: copy_bytes(request.session_id.as_slice()),
        sequence: 0,
        correlation_id: id,
        payload: Some(Payload::WorldEnumerationRequest(request)),
    }
}

/// Outstanding world enumerations and the callers waiting on them.
pub struct EnumerationDispatcher {
    requests: HashMap<u64, EnumerationEntry>,
    pending: IdSet,
    outbound: bool,
    aborted: bool,
    activation: Option<Activation>,
}

impl EnumerationDispatcher {
    /// The gathered state of each outstanding request, by correlation identifier.
    pub closed spec fn spec_requests(&self) -> Map<u64, EnumerationEntry> {
        self.requests@
    }

    /// The correlation identifiers whose callers still wait for a result.
    pub closed spec fn spec_pending(&self) -> Set<u64> {
        self.pending@
    }

    pub closed spec fn spec_outbound(&self) -> bool {
        self.outbound
    }

    pub closed spec fn spec_aborted(&self) -> bool {
        self.aborted
    }

    pub closed spec fn spec_activation(&self) -> Option<Activation> {
        self.activation
    }

    pub closed spec fn wf(&self) -> bool {
        self.pending.wf()
    }

    pub fn new() -> (d: EnumerationDispatcher)
        ensures
            d.wf(),
            d.spec_requests() == Map::<u64, EnumerationEntry>::empty(),
            d.spec_pending() == Set::<u64>::empty(),
            !d.spec_outbound(),
            !d.spec_aborted(),
            d.spec_activation() is None,
    {
        EnumerationDispatcher {
            requests: HashMap::new(),
            pending: IdSet::new(),
            outbound: false,
            aborted: false,
            activation: None,
        }
    }

    /// Binds later requests to a bridge session.
    pub fn activate(&mut self, bridge_id: Vec<u8>, session_id: Vec<u8>, config_revision: u64)
        ensures
            final(self).wf() == old(self).wf(),
            final(self).spec_requests() == old(self).spec_requests(),
            final(self).spec_pending() == old(self).spec_pending(),
            final(self).spec_outbound() == old(self).spec_outbound(),
            final(self).spec_aborted() == old(self).spec_aborted(),
            final(self).spec_activation() == Some(Activation { bridge_id, session_id, config_revision }),
    {
        self.activation = Some(Activation { bridge_id, session_id, config_revision });
    }

    /// Records that a channel to the bridge exists for follow-up pages.
    pub fn set_outbound(&mut self)
        ensures
            final(self).wf() == old(self).wf(),
            final(self).spec_requests() == old(self).spec_requests(),
            final(self).spec_pending() == old(self).spec_pending(),
            final(self).spec_outbound(),
            final(self).spec_aborted() == old(self).spec_aborted(),
            final(self).spec_activation() == old(self).spec_activation(),
    {
        self.outbound = true;
    }

    fn resolve(&mut self, id: u64, outcome: Result<Vec<ChunkCoordinate>, BridgeError>) -> (d: Option<Delivery>)
        requires
            old(self).wf(),
        ensures
            final(self).wf(),
            final(self).requests == old(self).requests,
            final(self).outbound == old(self).outbound,
            final(self).aborted == old(self).aborted,
            final(self).activation == old(self).activation,
            final(self).spec_pending() == old(self).spec_pending().remove(id),
            match d {
                Some(dl) => old(self).spec_pending().contains(id) && dl.id == id && dl.outcome == outcome,
                None => !old(self).spec_pending().contains(id),
            },
    {
        if self.pending.remove(id) {
            Some(Delivery { id, outcome })
        } else {
            None
        }
    }

    fn fail_permanent(&mut self, id: u64, error: WorldEnumerationError) -> (d: Option<Delivery>)
        requires
            old(self).wf(),
        ensures
            final(self).wf(),
            final(self).requests == old(self).requests,
            final(self).outbound == old(self).outbound,
            final(self).aborted == old(self).aborted,
            final(self).activation == old(self).activation,
            final(self).spec_pending() == old(self).spec_pending().remove(id),
            delivers_failure(d, id, old(self).spec_pending().contains(id), true, enumeration_error_text(error)),
    {
        self.resolve(id, Err(BridgeError::Permanent(error.debug_text())))
    }

    fn fail_transient(&mut self, id: u64, message: &str) -> (d: Option<Delivery>)
        requires
            old(self).wf(),
        ensures
            final(self).wf(),
            final(self).requests == old(self).requests,
            final(self).outbound == old(self).outbound,
            final(self).aborted == old(self).aborted,
            final(self).activation == old(self).activation,
            final(self).spec_pending() == old(self).spec_pending().remove(id),
            delivers_failure(d, id, old(self).spec_pending().contains(id), false, message@),
    {
        self.resolve(id, Err(BridgeError::Transient(String::from_str(message))))
    }
}


/// Why `begin` refuses a request whose session binding is filled in; `Ok` when it does not.
pub open spec fn begin_verdict(
    request: WorldEnumerationRequest,
    session_id: Seq<u8>,
    bridge_id: Seq<u8>,
    next_id: u64,
) -> Result<(), WorldEnumerationError> {
    if request.page_index != 0 {
        Err(WorldEnumerationError::InvalidIndex { expected: 0, actual: request.page_index })
    } else if !bridge_identity_ok(bridge_id) || session_id.len() != 16 {
        Err(WorldEnumerationError::InvalidSession)
    } else if !world_ok(request.world) {
        Err(WorldEnumerationError::WorldMismatch)
    } else if next_id == 0 || request.max_items == 0 || request.max_items > MAX_ENUMERATION_ITEMS {
        Err(WorldEnumerationError::InvalidPageSize { max: MAX_ENUMERATION_ITEMS })
    } else {
        Ok(())
    }
}

/// Whether `activation` binds a session other than the given one.
pub open spec fn activation_differs(activation: Option<Activation>, bridge_id: Seq<u8>, session_id: Seq<u8>, config_revision: u64) -> bool {
    match activation {
        Some(a) => a.bridge_id@ != bridge_id || a.session_id@ != session_id || a.config_revision != config_revision,
        None => false,
    }
}

/// Whether `b` is `a` with the entry of `id` replaced by one with the given content.
pub open spec fn entry_updated(
    b: Map<u64, EnumerationEntry>,
    a: Map<u64, EnumerationEntry>,
    id: u64,
    request: EnumerationRequestView,
    coordinates: Seq<ChunkCoordinate>,
    page_count: u32,
) -> bool {
    &&& b.dom() == a.dom().insert(id)
    &&& forall|k: u64| k != id && a.contains_key(k) ==> b[k] == a[k]
    &&& b[id].request@ == request
    &&& b[id].coordinates@ == coordinates
    &&& b[id].page_count == page_count
}

/// A step that consumed nothing and owes nothing.
pub open spec fn quiet(step: EnumerationStep, accepted: Result<bool, WorldEnumerationError>) -> bool {
    step.accepted == accepted && step.delivery is None && !step.release && step.next_page is None
}

/// A step that ends request `id` with a failure.
pub open spec fn failed(
    step: EnumerationStep,
    accepted: Result<bool, WorldEnumerationError>,
    id: u64,
    was_pending: bool,
    permanent: bool,
    message: Seq<char>,
) -> bool {
    &&& step.accepted == accepted
    &&& delivers_failure(step.delivery, id, was_pending, permanent, message)
    &&& step.release
    &&& step.next_page is None
}

impl EnumerationDispatcher {
    /// Starts an enumeration bound to the given session under correlation
    /// `next_id`. A refused request comes back with the error to report and the
    /// failure owed to its caller.
    pub fn begin(
        &mut self,
        request: WorldEnumerationRequest,
        session_id: &[u8],
        bridge_id: &[u8],
        config_revision: u64,
        next_id: u64,
    ) -> (r: Result<Envelope, (WorldEnumerationError, BridgeError)>)
        requires
            old(self).wf(),
        ensures
            final(self).wf(),
            final(self).spec_outbound() == old(self).spec_outbound(),
            final(self).spec_aborted() == old(self).spec_aborted(),
            final(self).spec_activation() == old(self).spec_activation(),
            activation_differs(old(self).spec_activation(), bridge_id@, session_id@, config_revision) ==> {
                &&& r matches Err((e, BridgeError::Transient(m))) && e == WorldEnumerationError::InvalidSession
                    && m@ == "bridge activation changed"@
                &&& final(self).spec_requests() == old(self).spec_requests()
                &&& final(self).spec_pending() == old(self).spec_pending()
            },
            !activation_differs(old(self).spec_activation(), bridge_id@, session_id@, config_revision)
                && begin_verdict(request, session_id@, bridge_id@, next_id) is Err ==> {
                &&& r matches Err((e, BridgeError::Permanent(m))) && e == begin_verdict(request, session_id@, bridge_id@, next_id)->Err_0
                    && m@ == enumeration_error_text(e)
                &&& final(self).spec_requests() == old(self).spec_requests()
                &&& final(self).spec_pending() == old(self).spec_pending()
            },
            !activation_differs(old(self).spec_activation(), bridge_id@, session_id@, config_revision)
                && begin_verdict(request, session_id@, bridge_id@, next_id) is Ok && old(self).spec_aborted() ==> {
                &&& r matches Err((e, BridgeError::Transient(m))) && e == WorldEnumerationError::InvalidSession
                    && m@ == "bridge connection closed"@
                &&& final(self).spec_requests() == old(self).spec_requests()
                &&& final(self).spec_pending() == old(self).spec_pending()
            },
            !activation_differs(old(self).spec_activation(), bridge_id@, session_id@, config_revision)
                && begin_verdict(request, session_id@, bridge_id@, next_id) is Ok && !old(self).spec_aborted() ==> {
                let bound = EnumerationRequestView {
                    session_id: session_id@,
                    bridge_id: bridge_id@,
                    config_revision,
                    enumeration_id: next_id,
                    ..request@
                };
                &&& r matches Ok(e) && is_request_envelope(e, bound, next_id)
                &&& entry_updated(final(self).spec_requests(), old(self).spec_requests(), next_id, bound, Seq::empty(), 0)
                &&& final(self).spec_pending() == old(self).spec_pending().insert(next_id)
            },
    {
        if let Some(active) = &self.activation {
            if !bytes_equal(active.bridge_id.as_slice(), bridge_id) || !bytes_equal(active.session_id.as_slice(), session_id)
                || active.config_revision != config_revision {
                return Err((WorldEnumerationError::InvalidSession, BridgeError::Transient(String::from_str("bridge activation changed"))));
            }
        }
        let mut request = request;
        request.session_id = copy_bytes(session_id);
        request.bridge_id = copy_bytes(bridge_id);
        request.config_revision = config_revision;
        request.enumeration_id = next_id;
        let verdict = match validate_enumeration_page(&request, 0) {
            Err(e) => Err(e),
            Ok(()) => validate_enumeration_request(&request, bridge_id, session_id, config_revision, MAX_ENUMERATION_ITEMS),
        };
        if let Err(error) = verdict {
            return Err((error, BridgeError::Permanent(error.debug_text())));
        }
        if self.aborted {
            return Err((WorldEnumerationError::InvalidSession, BridgeError::Transient(String::from_str("bridge connection closed"))));
        }
        self.pending.insert(next_id);
        let envelope = request_envelope(request.duplicate(), next_id);
        self.requests.insert(next_id, EnumerationEntry { request, coordinates: Vec::new(), page_count: 0 });
        proof {
            assert(self.requests@[next_id].coordinates@ =~= Seq::<ChunkCoordinate>::empty());
        }
        Ok(envelope)
    }
}


impl EnumerationDispatcher {
    fn accept_item(&mut self, id: u64, item: &WorldEnumerationItem) -> (step: EnumerationStep)
        requires
            old(self).wf(),
        ensures
            final(self).wf(),
            final(self).outbound == old(self).outbound,
            final(self).aborted == old(self).aborted,
            final(self).activation == old(self).activation,
            accept_item_spec(old(self).spec_requests(), old(self).spec_pending(), final(self).spec_requests(),
                final(self).spec_pending(), id, *item, step),
    {
        let removed = self.requests.remove(&id);
        let mut entry = match removed {
            Some(entry) => entry,
            None => {
                assert(self.requests@ =~= old(self).requests@);
                return EnumerationStep { accepted: Ok(false), delivery: None, release: false, next_page: None };
            },
        };
        if let Err(error) = validate_enumeration_item(item, &entry.request, entry.page_count) {
            let delivery = self.fail_permanent(id, error);
            return EnumerationStep { accepted: Err(error), delivery, release: true, next_page: None };
        }
        if entry.coordinates.len() >= MAX_ENUMERATED_COORDINATES as usize {
            let error = WorldEnumerationError::InvalidIndex {
                expected: MAX_ENUMERATED_COORDINATES,
                actual: entry.coordinates.len() as u32,
            };
            let delivery = self.fail_permanent(id, error);
            return EnumerationStep { accepted: Err(error), delivery, release: true, next_page: None };
        }
        let coordinate = match item.coordinate {
            Some(c) => c,
            None => {
                assert(self.requests@ =~= old(self).requests@);
                return EnumerationStep { accepted: Ok(false), delivery: None, release: false, next_page: None };
            },
        };
        entry.coordinates.push(coordinate);
        entry.page_count = if entry.page_count < u32::MAX { entry.page_count + 1 } else { u32::MAX };
        self.requests.insert(id, entry);
        assert(self.requests@.dom() =~= old(self).requests@.dom().insert(id));
        EnumerationStep { accepted: Ok(true), delivery: None, release: false, next_page: None }
    }

    fn accept_completion(&mut self, id: u64, completion: &WorldEnumerationComplete) -> (step: EnumerationStep)
        requires
            old(self).wf(),
        ensures
            final(self).wf(),
            final(self).outbound == old(self).outbound,
            final(self).aborted == old(self).aborted,
            final(self).activation == old(self).activation,
            accept_completion_spec(old(self).spec_requests(), old(self).spec_pending(), old(self).spec_outbound(),
                final(self).spec_requests(), final(self).spec_pending(), id, *completion, step),
    {
        let removed = self.requests.remove(&id);
        let mut entry = match removed {
            Some(entry) => entry,
            None => {
                assert(self.requests@ =~= old(self).requests@);
                return EnumerationStep { accepted: Ok(false), delivery: None, release: false, next_page: None };
            },
        };
        if let Err(error) = validate_enumeration_completion(completion, &entry.request, entry.page_count) {
            let delivery = self.fail_permanent(id, error);
            return EnumerationStep { accepted: Err(error), delivery, release: true, next_page: None };
        }
        if completion.status != ENUMERATION_STATUS_COMPLETE {
            let reason = completion.failure_reason.clone();
            let delivery = self.resolve(id, Err(BridgeError::Permanent(reason)));
            return EnumerationStep { accepted: Ok(true), delivery, release: true, next_page: None };
        }
        if completion.has_more {
            if entry.request.page_index == u32::MAX {
                return EnumerationStep {
                    accepted: Err(WorldEnumerationError::InvalidCompletion),
                    delivery: None,
                    release: false,
                    next_page: None,
                };
            }
            if !self.outbound {
                let delivery = self.fail_transient(id, "enumeration outbound closed");
                return EnumerationStep { accepted: Err(WorldEnumerationError::InvalidSession), delivery, release: true, next_page: None };
            }
            entry.request.page_index = entry.request.page_index + 1;
            entry.page_count = 0;
            let next = request_envelope(entry.request.duplicate(), id);
            self.requests.insert(id, entry);
            assert(self.requests@.dom() =~= old(self).requests@.dom().insert(id));
            return EnumerationStep { accepted: Ok(true), delivery: None, release: false, next_page: Some(next) };
        }
        let outcome = if has_duplicate_coordinate(&entry.coordinates) {
            Err(BridgeError::Permanent(String::from_str("duplicate enumeration coordinate")))
        } else {
            Ok(entry.coordinates)
        };
        let delivery = self.resolve(id, outcome);
        EnumerationStep { accepted: Ok(true), delivery, release: true, next_page: None }
    }

    /// Applies one bridge message to the outstanding enumerations.
    pub fn accept(&mut self, envelope: &Envelope) -> (step: EnumerationStep)
        requires
            old(self).wf(),
        ensures
            final(self).wf(),
            final(self).spec_outbound() == old(self).spec_outbound(),
            final(self).spec_aborted() == old(self).spec_aborted(),
            final(self).spec_activation() == old(self).spec_activation(),
            match envelope.payload {
                Some(Payload::WorldEnumerationItem(item)) => accept_item_spec(old(self).spec_requests(),
                    old(self).spec_pending(), final(self).spec_requests(), final(self).spec_pending(),
                    envelope.correlation_id, item, step),
                Some(Payload::WorldEnumerationComplete(c)) => accept_completion_spec(old(self).spec_requests(),
                    old(self).spec_pending(), old(self).spec_outbound(), final(self).spec_requests(),
                    final(self).spec_pending(), envelope.correlation_id, c, step),
                _ => {
                    &&& quiet(step, Ok(false))
                    &&& final(self).spec_requests() == old(self).spec_requests()
                    &&& final(self).spec_pending() == old(self).spec_pending()
                },
            },
    {
        match &envelope.payload {
            Some(Payload::WorldEnumerationItem(item)) => self.accept_item(envelope.correlation_id, item),
            Some(Payload::WorldEnumerationComplete(c)) => self.accept_completion(envelope.correlation_id, c),
            _ => EnumerationStep { accepted: Ok(false), delivery: None, release: false, next_page: None },
        }
    }
}

/// What an enumeration item does to the outstanding requests `r` and waiting callers `p`.
pub open spec fn accept_item_spec(
    r: Map<u64, EnumerationEntry>,
    p: Set<u64>,
    r2: Map<u64, EnumerationEntry>,
    p2: Set<u64>,
    id: u64,
    item: WorldEnumerationItem,
    step: EnumerationStep,
) -> bool {
    if !r.contains_key(id) {
        quiet(step, Ok(false)) && r2 == r && p2 == p
    } else {
        let e = r[id];
        let verdict = enumeration_item_verdict(item, e.request, e.page_count);
        if verdict is Err {
            &&& failed(step, Err(verdict->Err_0), id, p.contains(id), true, enumeration_error_text(verdict->Err_0))
            &&& r2 == r.remove(id)
            &&& p2 == p.remove(id)
        } else if e.coordinates@.len() >= MAX_ENUMERATED_COORDINATES {
            let error = WorldEnumerationError::InvalidIndex {
                expected: MAX_ENUMERATED_COORDINATES,
                actual: e.coordinates@.len() as u32,
            };
            &&& failed(step, Err(error), id, p.contains(id), true, enumeration_error_text(error))
            &&& r2 == r.remove(id)
            &&& p2 == p.remove(id)
        } else {
            &&& quiet(step, Ok(true))
            &&& entry_updated(r2, r, id, e.request@, e.coordinates@.push(item.coordinate->0),
                if e.page_count < u32::MAX { (e.page_count + 1) as u32 } else { u32::MAX })
            &&& r2[id].request == e.request
            &&& p2 == p
        }
    }
}

/// What an enumeration completion does to the outstanding requests `r` and waiting callers `p`.
pub open spec fn accept_completion_spec(
    r: Map<u64, EnumerationEntry>,
    p: Set<u64>,
    outbound: bool,
    r2: Map<u64, EnumerationEntry>,
    p2: Set<u64>,
    id: u64,
    c: WorldEnumerationComplete,
    step: EnumerationStep,
) -> bool {
    if !r.contains_key(id) {
        quiet(step, Ok(false)) && r2 == r && p2 == p
    } else {
        let e = r[id];
        let verdict = enumeration_completion_verdict(c, e.request, e.page_count);
        if verdict is Err {
            &&& failed(step, Err(verdict->Err_0), id, p.contains(id), true, enumeration_error_text(verdict->Err_0))
            &&& r2 == r.remove(id)
            &&& p2 == p.remove(id)
        } else if c.status != ENUMERATION_STATUS_COMPLETE {
            &&& failed(step, Ok(true), id, p.contains(id), true, c.failure_reason@)
            &&& r2 == r.remove(id)
            &&& p2 == p.remove(id)
        } else if c.has_more {
            if e.request.page_index == u32::MAX {
                quiet(step, Err(WorldEnumerationError::InvalidCompletion)) && r2 == r.remove(id) && p2 == p
            } else if !outbound {
                &&& failed(step, Err(WorldEnumerationError::InvalidSession), id, p.contains(id), false,
                    "enumeration outbound closed"@)
                &&& r2 == r.remove(id)
                &&& p2 == p.remove(id)
            } else {
                let next = EnumerationRequestView { page_index: (e.request.page_index + 1) as u32, ..e.request@ };
                &&& step.accepted == Ok::<bool, WorldEnumerationError>(true)
                &&& step.delivery is None
                &&& !step.release
                &&& step.next_page matches Some(env) && is_request_envelope(env, next, id)
                &&& entry_updated(r2, r, id, next, e.coordinates@, 0)
                &&& p2 == p
            }
        } else {
            &&& step.accepted == Ok::<bool, WorldEnumerationError>(true)
            &&& step.release
            &&& step.next_page is None
            &&& r2 == r.remove(id)
            &&& p2 == p.remove(id)
            &&& if p.contains(id) {
                step.delivery matches Some(d) && d.id == id && if e.coordinates@.no_duplicates() {
                    d.outcome matches Ok(list) && list@ == e.coordinates@
                } else {
                    d.outcome matches Err(BridgeError::Permanent(m)) && m@ == "duplicate enumeration coordinate"@
                }
            } else {
                step.delivery is None
            }
        }
    }
}


/// Whether `out` delivers the transient failure `message` to every caller in `p`, once each.
pub open spec fn delivers_to_all(out: Seq<Delivery>, p: Set<u64>, message: Seq<char>) -> bool {
    &&& forall|k: u64| p.contains(k) <==> exists|i: int| 0 <= i < out.len() && #[trigger] out[i].id == k
    &&& forall|i: int, j: int| 0 <= i < j < out.len() ==> out[i].id != out[j].id
    &&& forall|i: int| 0 <= i < out.len() ==> ((#[trigger] out[i].outcome) matches Err(BridgeError::Transient(m)) && m@ == message)
}

impl EnumerationDispatcher {
    /// The caller of `id` cancelled: forget the request and fail the caller if it still waits.
    pub fn cancel(&mut self, id: u64) -> (d: Option<Delivery>)
        requires
            old(self).wf(),
        ensures
            final(self).wf(),
            final(self).spec_outbound() == old(self).spec_outbound(),
            final(self).spec_aborted() == old(self).spec_aborted(),
            final(self).spec_activation() == old(self).spec_activation(),
            final(self).spec_requests() == old(self).spec_requests().remove(id),
            final(self).spec_pending() == old(self).spec_pending().remove(id),
            delivers_failure(d, id, old(self).spec_pending().contains(id), false, "enumeration request cancelled"@),
    {
        self.abort_request(id, "enumeration request cancelled")
    }

    /// Ends request `id` with the transient failure `message`.
    pub fn abort_request(&mut self, id: u64, message: &str) -> (d: Option<Delivery>)
        requires
            old(self).wf(),
        ensures
            final(self).wf(),
            final(self).spec_outbound() == old(self).spec_outbound(),
            final(self).spec_aborted() == old(self).spec_aborted(),
            final(self).spec_activation() == old(self).spec_activation(),
            final(self).spec_requests() == old(self).spec_requests().remove(id),
            final(self).spec_pending() == old(self).spec_pending().remove(id),
            delivers_failure(d, id, old(self).spec_pending().contains(id), false, message@),
    {
        let _ = self.requests.remove(&id);
        self.fail_transient(id, message)
    }

    /// The follow-up page of `id` could not be sent: end it.
    pub fn outbound_failed(&mut self, id: u64) -> (d: Option<Delivery>)
        requires
            old(self).wf(),
        ensures
            final(self).wf(),
            final(self).spec_outbound() == old(self).spec_outbound(),
            final(self).spec_aborted() == old(self).spec_aborted(),
            final(self).spec_activation() == old(self).spec_activation(),
            final(self).spec_requests() == old(self).spec_requests().remove(id),
            final(self).spec_pending() == old(self).spec_pending().remove(id),
            delivers_failure(d, id, old(self).spec_pending().contains(id), false, "enumeration outbound closed"@),
    {
        self.abort_request(id, "enumeration outbound closed")
    }

    /// The connection is gone: nothing more is accepted and every waiting caller
    /// receives the transient failure `message`.
    pub fn abort(&mut self, message: &str) -> (out: Vec<Delivery>)
        requires
            old(self).wf(),
        ensures
            final(self).wf(),
            final(self).spec_outbound() == old(self).spec_outbound(),
            final(self).spec_aborted(),
            final(self).spec_activation() == old(self).spec_activation(),
            final(self).spec_requests() == Map::<u64, EnumerationEntry>::empty(),
            final(self).spec_pending() == Set::<u64>::empty(),
            delivers_to_all(out@, old(self).spec_pending(), message@),
    {
        self.aborted = true;
        self.requests.clear();
        let ids = self.pending.take_all();
        let mut out: Vec<Delivery> = Vec::new();
        let mut i: usize = 0;
        while i < ids.len()
            invariant
                i <= ids@.len(),
                out@.len() == i,
                ids@.no_duplicates(),
                forall|j: int| 0 <= j < i ==> (#[trigger] out@[j]).id == ids@[j],
                forall|j: int| 0 <= j < i ==> ((#[trigger] out@[j].outcome) matches Err(BridgeError::Transient(m)) && m@ == message@),
            decreases ids@.len() - i,
        {
            out.push(Delivery { id: ids[i], outcome: Err(BridgeError::Transient(String::from_str(message))) });
            i = i + 1;
        }
        proof {
            assert forall|k: u64| old(self).spec_pending().contains(k) <==> exists|i: int| 0 <= i < out@.len() && #[trigger] out@[i].id == k by {
                if old(self).spec_pending().contains(k) {
                    assert(ids@.to_set().contains(k));
                    let j = choose|j: int| 0 <= j < ids@.len() && ids@[j] == k;
                    assert(out@[j].id == k);
                }
                if exists|i: int| 0 <= i < out@.len() && #[trigger] out@[i].id == k {
                    let j = choose|j: int| 0 <= j < out@.len() && #[trigger] out@[j].id == k;
                    assert(ids@[j] == k);
                    assert(ids@.contains(k));
                }
            }
        }
        out
    }

    /// Unbinds the session and aborts everything outstanding.
    pub fn deactivate(&mut self) -> (out: Vec<Delivery>)
        requires
            old(self).wf(),
        ensures
            final(self).wf(),
            final(self).spec_activation() is None,
            final(self).spec_aborted(),
            final(self).spec_requests() == Map::<u64, EnumerationEntry>::empty(),
            final(self).spec_pending() == Set::<u64>::empty(),
            delivers_to_all(out@, old(self).spec_pending(), "bridge connection closed"@),
    {
        self.activation = None;
        self.abort("bridge connection closed")
    }

    /// How many callers still wait for a result.
    pub fn in_flight(&self) -> (n: usize)
        requires
            self.wf(),
        ensures
            n == self.spec_pending().len(),
    {
        self.pending.len()
    }
}


/// The snapshot requests that callers wait on, over the snapshot client.
pub struct SnapshotDispatcher {
    client: SnapshotClient,
    waiting: IdSet,
    aborted: bool,
}

impl SnapshotDispatcher {
    /// The correlation identifiers with a caller waiting.
    pub closed spec fn spec_waiting(&self) -> Set<u64> {
        self.waiting@
    }

    pub closed spec fn spec_aborted(&self) -> bool {
        self.aborted
    }

    pub closed spec fn spec_client(&self) -> SnapshotClient {
        self.client
    }

    pub closed spec fn wf(&self) -> bool {
        self.client.wf() && self.waiting.wf()
    }

    pub fn new(client: SnapshotClient) -> (d: SnapshotDispatcher)
        requires
            client.wf(),
        ensures
            d.wf(),
            d.spec_waiting() == Set::<u64>::empty(),
            !d.spec_aborted(),
            d.spec_client() == client,
    {
        SnapshotDispatcher { client, waiting: IdSet::new(), aborted: false }
    }

    /// Sends a request for a waiting caller: refused once the connection
    /// closed, refused as the client refuses it, and otherwise the caller
    /// waits on the new request's correlation identifier. A refusal comes with
    /// the transient failure the waiting caller is told.
    pub fn begin(&mut self, world: WorldIdentity, coordinate: ChunkCoordinate, revision: u64) -> (r: Result<
        Envelope,
        (SnapshotClientError, BridgeError),
    >)
        requires
            old(self).wf(),
        ensures
            final(self).wf(),
            old(self).spec_aborted() ==> {
                &&& r matches Err((e, BridgeError::Transient(m)))
                    && e == SnapshotClientError::InvalidResponse("bridge connection closed")
                    && m@ == "bridge connection closed"@
                &&& final(self).spec_waiting() == old(self).spec_waiting()
                &&& final(self).spec_client() == old(self).spec_client()
            },
            !old(self).spec_aborted() ==> request_outcome(
                old(self).spec_client(),
                final(self).spec_client(),
                without_notice(r),
                world@,
                coordinate,
                revision,
                false,
            ),
            !old(self).spec_aborted() ==> match r {
                Ok(e) => final(self).spec_waiting() == old(self).spec_waiting().insert(e.correlation_id),
                Err((e, n)) => final(self).spec_waiting() == old(self).spec_waiting()
                    && (n matches BridgeError::Transient(m) && m@ == client_error_text(e)),
            },
            final(self).spec_aborted() == old(self).spec_aborted(),
    {
        if self.aborted {
            let closed = "bridge connection closed";
            proof {
                reveal_strlit("bridge connection closed");
            }
            return Err((SnapshotClientError::InvalidResponse(closed), BridgeError::Transient(String::from_str(closed))));
        }
        match self.client.request_once(world, coordinate.x, coordinate.z, revision) {
            Ok(envelope) => {
                self.waiting.insert(envelope.correlation_id);
                Ok(envelope)
            },
            Err(e) => {
                let notice = client_error_debug(&e);
                Err((e, BridgeError::Transient(notice)))
            },
        }
    }

    /// The client, to hand it an answer from the bridge.
    pub fn client_mut(&mut self) -> (c: &mut SnapshotClient)
        requires
            old(self).wf(),
        ensures
            *c == old(self).spec_client(),
            final(self).spec_client() == *final(c),
            final(self).spec_waiting() == old(self).spec_waiting(),
            final(self).spec_aborted() == old(self).spec_aborted(),
            final(c).wf() ==> final(self).wf(),
    {
        &mut self.client
    }

    /// Ends the wait on `correlation` once its answer is in: whether a caller
    /// was waiting for it.
    pub fn resolve(&mut self, correlation: u64) -> (waiting: bool)
        requires
            old(self).wf(),
        ensures
            final(self).wf(),
            waiting == old(self).spec_waiting().contains(correlation),
            final(self).spec_waiting() == old(self).spec_waiting().remove(correlation),
            final(self).spec_client() == old(self).spec_client(),
            final(self).spec_aborted() == old(self).spec_aborted(),
    {
        self.waiting.remove(correlation)
    }

    /// Cancels the request `correlation`: answers whether a caller was
    /// waiting and must be told.
    pub fn cancel(&mut self, correlation: u64) -> (waiting: bool)
        requires
            old(self).wf(),
        ensures
            final(self).wf(),
            waiting == old(self).spec_waiting().contains(correlation),
            final(self).spec_waiting() == old(self).spec_waiting().remove(correlation),
            final(self).spec_client().pending_map() == old(self).spec_client().pending_map().remove(correlation),
            final(self).spec_aborted() == old(self).spec_aborted(),
    {
        self.client.cancel(correlation);
        self.waiting.remove(correlation)
    }

    /// How many callers wait.
    pub fn in_flight(&self) -> (n: usize)
        requires
            self.wf(),
        ensures
            n == self.spec_waiting().len(),
    {
        self.waiting.len()
    }

    /// Closes the dispatcher: every request is dropped, later requests are
    /// refused, and the callers that waited are handed back to be told.
    pub fn abort(&mut self) -> (waiting: Vec<u64>)
        requires
            old(self).wf(),
        ensures
            final(self).wf(),
            final(self).spec_aborted(),
            waiting@.to_set() == old(self).spec_waiting(),
            final(self).spec_waiting() == Set::<u64>::empty(),
            final(self).spec_client().pending_map() == Map::<u64, crate::snapshot_client::PendingRequest>::empty(),
    {
        self.aborted = true;
        let _ = self.client.abort_pending();
        self.waiting.take_all()
    }
}


/// The error under which an answer needs a registry that is not there.
pub open spec fn is_registry_unavailable(e: SnapshotClientError) -> bool {
    e matches SnapshotClientError::InvalidResponse(m) && m@ == "snapshot registry unavailable"@
}

/// What the dispatcher does with one answer from the bridge.
#[derive(Debug, Clone, PartialEq, Eq)]
pub enum SnapshotRoute {
    /// The answer readies no reply: nothing to tell, and the answer counts as unhandled.
    Unrelated,
    /// The request's reply is ready: tell the caller, where one waits.
    Deliver { waiting: bool },
    /// The registry the answer needs is unavailable: the request is dropped and
    /// its caller, where one waits, is told so as a transient failure.
    Unavailable { waiting: bool },
    /// The answer is refused with this error.
    Refuse(SnapshotClientError),
}

/// Whether an answer routed as `route` counts as handled, or the error it is refused with.
pub open spec fn route_result(route: SnapshotRoute) -> Result<bool, SnapshotClientError> {
    match route {
        SnapshotRoute::Unrelated => Ok(false),
        SnapshotRoute::Deliver { .. } => Ok(true),
        SnapshotRoute::Unavailable { .. } => Ok(true),
        SnapshotRoute::Refuse(e) => Err(e),
    }
}

impl SnapshotRoute {
    /// Whether the answer counts as handled, or the error it is refused with.
    pub fn result(self) -> (r: Result<bool, SnapshotClientError>)
        ensures
            r == route_result(self),
    {
        match self {
            SnapshotRoute::Unrelated => Ok(false),
            SnapshotRoute::Deliver { .. } => Ok(true),
            SnapshotRoute::Unavailable { .. } => Ok(true),
            SnapshotRoute::Refuse(e) => Err(e),
        }
    }
}

impl SnapshotDispatcher {
    /// Routes the outcome of one answer to the request `correlation`: `Ok(true)`
    /// where its reply is ready, `Ok(false)` where none is, or the error the
    /// client or the decoding gave.
    pub fn route(&mut self, correlation: u64, outcome: Result<bool, SnapshotClientError>) -> (r: SnapshotRoute)
        requires
            old(self).wf(),
        ensures
            final(self).wf(),
            final(self).spec_aborted() == old(self).spec_aborted(),
            outcome == Ok::<bool, SnapshotClientError>(false) ==> r == SnapshotRoute::Unrelated
                && final(self).spec_waiting() == old(self).spec_waiting()
                && final(self).spec_client() == old(self).spec_client(),
            outcome == Ok::<bool, SnapshotClientError>(true) ==> r == (SnapshotRoute::Deliver {
                waiting: old(self).spec_waiting().contains(correlation),
            }) && final(self).spec_waiting() == old(self).spec_waiting().remove(correlation)
                && final(self).spec_client() == old(self).spec_client(),
            outcome matches Err(e) ==> if is_registry_unavailable(e) {
                &&& r == (SnapshotRoute::Unavailable { waiting: old(self).spec_waiting().contains(correlation) })
                &&& final(self).spec_waiting() == old(self).spec_waiting().remove(correlation)
                &&& final(self).spec_client().pending_map() == old(self).spec_client().pending_map().remove(correlation)
            } else {
                &&& r == SnapshotRoute::Refuse(e)
                &&& final(self).spec_waiting() == old(self).spec_waiting()
                &&& final(self).spec_client() == old(self).spec_client()
            },
    {
        match outcome {
            Ok(false) => SnapshotRoute::Unrelated,
            Ok(true) => {
                let waiting = self.resolve(correlation);
                SnapshotRoute::Deliver { waiting }
            },
            Err(e) => {
                let unavailable = match &e {
                    SnapshotClientError::InvalidResponse(m) => same_text(m, "snapshot registry unavailable"),
                    _ => false,
                };
                if unavailable {
                    proof {
                        reveal_strlit("snapshot registry unavailable");
                    }
                    let waiting = self.cancel(correlation);
                    SnapshotRoute::Unavailable { waiting }
                } else {
                    SnapshotRoute::Refuse(e)
                }
            },
        }
    }
}

/// A request's result without the notice that goes with a refusal.
pub open spec fn without_notice(r: Result<Envelope, (SnapshotClientError, BridgeError)>) -> Result<
    Envelope,
    SnapshotClientError,
> {
    match r {
        Ok(e) => Ok(e),
        Err((e, _)) => Err(e),
    }
}

/// The text the derived `Debug` writes for a client error, for the plain
/// messages the client uses (no quote, backslash or control character, which
/// `Debug` would escape).
pub open spec fn client_error_text(e: SnapshotClientError) -> Seq<char> {
    match e {
        SnapshotClientError::InvalidSession => "InvalidSession"@,
        SnapshotClientError::Saturated => "Saturated"@,
        SnapshotClientError::InvalidResponse(m) => "InvalidResponse(\""@ + m@ + "\")"@,
        SnapshotClientError::Registry(m) => "Registry(\""@ + m@ + "\")"@,
        SnapshotClientError::Snapshot(m) => "Snapshot(\""@ + m@ + "\")"@,
    }
}

/// The text of a client error, as [`client_error_text`] gives it.
pub fn client_error_debug(e: &SnapshotClientError) -> (s: String)
    ensures
        s@ == client_error_text(*e),
{
    let (name, message) = match e {
        SnapshotClientError::InvalidSession => return String::from_str("InvalidSession"),
        SnapshotClientError::Saturated => return String::from_str("Saturated"),
        SnapshotClientError::InvalidResponse(m) => ("InvalidResponse(\"", *m),
        SnapshotClientError::Registry(m) => ("Registry(\"", m.as_str()),
        SnapshotClientError::Snapshot(m) => ("Snapshot(\"", m.as_str()),
    };
    let mut s = String::from_str(name);
    push_str(&mut s, message);
    push_str(&mut s, "\")");
    s
}

} // verus!
