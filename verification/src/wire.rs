//! Plain-value models of the bridge protocol messages that the backend's
//! decisions read. The transport layer converts the protobuf messages into
//! these types one field at a time.
use vstd::prelude::*;
use crate::dirty_resync::{
    DirtyReplayItem, DirtyReplayRequest, DirtyResyncComplete, WorldEnumerationComplete, WorldEnumerationItem,
    WorldEnumerationRequest,
};

verus! {

/// A world as the bridge names it: namespace, value and the epoch of the
/// world's current incarnation.
#[derive(Debug, Clone, PartialEq, Eq)]
pub struct WorldIdentity {
    pub namespace: String,
    pub value: String,
    pub epoch: u64,
}

/// The mathematical content of a [`WorldIdentity`].
pub type WorldKey = (Seq<char>, Seq<char>, u64);

impl View for WorldIdentity {
    type V = WorldKey;

    open spec fn view(&self) -> WorldKey {
        (self.namespace@, self.value@, self.epoch)
    }
}

/// The view of an optional world identity.
pub open spec fn opt_world(w: Option<WorldIdentity>) -> Option<WorldKey> {
    match w {
        Some(w) => Some(w@),
        None => None,
    }
}

/// A chunk position in chunk units.
#[derive(Debug, Clone, Copy, PartialEq, Eq, Structural)]
pub struct ChunkCoordinate {
    pub x: i32,
    pub z: i32,
}

impl WorldIdentity {
    /// Whether two identities name the same world incarnation.
    pub fn same(&self, other: &WorldIdentity) -> (r: bool)
        ensures
            r == (self@ == other@),
    {
        self.epoch == other.epoch && self.namespace == other.namespace && self.value == other.value
    }

    /// An identity that the protocol accepts: non-zero epoch and non-empty names.
    pub open spec fn is_well_formed(&self) -> bool {
        self.epoch != 0 && self.namespace@.len() > 0 && self.value@.len() > 0
    }

    pub fn well_formed(&self) -> (r: bool)
        ensures
            r == self.is_well_formed(),
    {
        self.epoch != 0 && !self.namespace.as_str().is_empty() && !self.value.as_str().is_empty()
    }

    pub fn duplicate(&self) -> (r: WorldIdentity)
        ensures
            r@ == self@,
    {
        WorldIdentity { namespace: self.namespace.clone(), value: self.value.clone(), epoch: self.epoch }
    }
}

/// Whether two optional identities are equal (both absent, or both naming the same world).
pub fn same_optional_world(a: &Option<WorldIdentity>, b: &Option<WorldIdentity>) -> (r: bool)
    ensures
        r == (opt_world(*a) == opt_world(*b)),
{
    match (a, b) {
        (Some(a), Some(b)) => a.same(b),
        (None, None) => true,
        _ => false,
    }
}

pub fn duplicate_optional_world(w: &Option<WorldIdentity>) -> (r: Option<WorldIdentity>)
    ensures
        opt_world(r) == opt_world(*w),
{
    match w {
        Some(w) => Some(w.duplicate()),
        None => None,
    }
}

/// Byte-wise equality of two byte strings.
pub fn bytes_equal(a: &[u8], b: &[u8]) -> (r: bool)
    ensures
        r == (a@ == b@),
{
    if a.len() != b.len() {
        return false;
    }
    let mut i: usize = 0;
    while i < a.len()
        invariant
            a@.len() == b@.len(),
            i <= a@.len(),
            forall|j: int| 0 <= j < i ==> a@[j] == b@[j],
        decreases a@.len() - i,
    {
        if a[i] != b[i] {
            return false;
        }
        i = i + 1;
    }
    assert(a@ =~= b@);
    true
}

/// Whether every byte is zero.
pub fn all_zero(a: &[u8]) -> (r: bool)
    ensures
        r == (forall|j: int| 0 <= j < a@.len() ==> a@[j] == 0),
{
    let mut i: usize = 0;
    while i < a.len()
        invariant
            i <= a@.len(),
            forall|j: int| 0 <= j < i ==> a@[j] == 0,
        decreases a@.len() - i,
    {
        if a[i] != 0 {
            return false;
        }
        i = i + 1;
    }
    true
}

/// Copies a byte string.
pub fn copy_bytes(a: &[u8]) -> (r: Vec<u8>)
    ensures
        r@ == a@,
{
    let mut out: Vec<u8> = Vec::new();
    let mut i: usize = 0;
    while i < a.len()
        invariant
            i <= a@.len(),
            out@ == a@.subrange(0, i as int),
        decreases a@.len() - i,
    {
        out.push(a[i]);
        i = i + 1;
    }
    assert(out@ =~= a@);
    out
}

pub const PROTOCOL_MAJOR: u32 = 1;
pub const PROTOCOL_MINOR: u32 = 0;

/// A request for one chunk snapshot.
#[derive(Debug, Clone, PartialEq, Eq)]
pub struct ChunkSnapshotRequest {
    pub world: Option<WorldIdentity>,
    pub coordinate: Option<ChunkCoordinate>,
    pub revision: u64,
    pub request_id: u64,
    pub loaded_only: bool,
}

/// The bridge's answer that a requested chunk cannot be captured.
#[derive(Debug, Clone, PartialEq, Eq)]
pub struct ChunkMissing {
    pub world: Option<WorldIdentity>,
    pub coordinate: Option<ChunkCoordinate>,
    pub revision: u64,
    pub reason: i32,
}

/// How a message was acknowledged.
#[derive(Debug, Clone, Copy, PartialEq, Eq, Structural)]
pub enum AckStatus {
    Unspecified,
    Accepted,
    Duplicate,
}

/// The class of a protocol violation.
#[derive(Debug, Clone, Copy, PartialEq, Eq, Structural)]
pub enum ProtocolErrorCode {
    Unspecified,
    InvalidMessage,
    UnsupportedVersion,
    Internal,
}

/// An acknowledgement of a durably handled message.
#[derive(Debug, Clone, PartialEq, Eq)]
pub struct Ack {
    pub acknowledged_sequence: u64,
    pub status: AckStatus,
    pub message: String,
}

/// A protocol violation report.
#[derive(Debug, Clone, PartialEq, Eq)]
pub struct ProtocolError {
    pub code: ProtocolErrorCode,
    pub message: String,
    pub fatal: bool,
    pub offending_sequence: u64,
    pub config_revision: u64,
}

/// The payloads that the backend's decisions read or produce.
#[derive(Debug, Clone, PartialEq, Eq)]
pub enum Payload {
    ChunkSnapshotRequest(ChunkSnapshotRequest),
    ChunkMissing(ChunkMissing),
    DirtyReplayRequest(DirtyReplayRequest),
    DirtyReplayItem(DirtyReplayItem),
    DirtyResyncComplete(DirtyResyncComplete),
    WorldEnumerationRequest(WorldEnumerationRequest),
    WorldEnumerationItem(WorldEnumerationItem),
    WorldEnumerationComplete(WorldEnumerationComplete),
    Ack(Ack),
    ProtocolError(ProtocolError),
    /// A payload that none of these decisions reads.
    Other,
}

/// One framed protocol message.
#[derive(Debug, Clone, PartialEq, Eq)]
pub struct Envelope {
    pub protocol_major: u32,
    pub protocol_minor: u32,
    pub session_id: Vec<u8>,
    pub sequence: u64,
    pub correlation_id: u64,
    pub payload: Option<Payload>,
}

} // verus!
