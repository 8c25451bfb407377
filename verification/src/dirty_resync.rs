//! Validation of dirty-chunk replay and world-enumeration exchanges with the bridge.
use vstd::prelude::*;
use crate::wire::{
    ChunkCoordinate, WorldIdentity, WorldKey, opt_world, same_optional_world, bytes_equal, all_zero,
    copy_bytes, duplicate_optional_world,
};

verus! {

pub const MAX_REPLAY_ITEMS: u32 = 1024;
pub const MAX_ENUMERATION_ITEMS: u32 = 1024;

/// Where a dirty replay page starts.
#[derive(Debug, Clone, Copy, PartialEq, Eq)]
pub enum ReplayCursor {
    /// The first page of a replay.
    Beginning,
    /// The page after the given coordinate.
    Continuation(ChunkCoordinate),
}

/// The bridge's request for one page of durable dirty chunks.
#[derive(Debug, Clone, PartialEq, Eq)]
pub struct DirtyReplayRequest {
    pub bridge_id: Vec<u8>,
    pub session_id: Vec<u8>,
    pub config_revision: u64,
    pub replay_id: u64,
    pub world: Option<WorldIdentity>,
    pub max_items: u32,
    pub cursor: Option<ReplayCursor>,
}

/// One replayed dirty chunk.
#[derive(Debug, Clone, PartialEq, Eq)]
pub struct DirtyReplayItem {
    pub bridge_id: Vec<u8>,
    pub session_id: Vec<u8>,
    pub config_revision: u64,
    pub replay_id: u64,
    pub item_index: u32,
    pub world: Option<WorldIdentity>,
    pub coordinate: Option<ChunkCoordinate>,
    pub revision: u64,
}

/// The wire code of a completed replay page.
pub const DIRTY_RESYNC_STATUS_UNSPECIFIED: i32 = 0;
pub const DIRTY_RESYNC_STATUS_COMPLETE: i32 = 1;
pub const DIRTY_RESYNC_STATUS_FAILED: i32 = 2;

/// The end of one replay page.
#[derive(Debug, Clone, PartialEq, Eq)]
pub struct DirtyResyncComplete {
    pub bridge_id: Vec<u8>,
    pub session_id: Vec<u8>,
    pub config_revision: u64,
    pub replay_id: u64,
    pub item_count: u32,
    pub status: i32,
    pub failure_reason: String,
    pub has_more: bool,
    pub last_coordinate: Option<ChunkCoordinate>,
}

/// The bridge's durable position, sent when a session resumes.
#[derive(Debug, Clone, PartialEq, Eq)]
pub struct ResumeWatermark {
    pub bridge_id: Vec<u8>,
    pub session_id: Vec<u8>,
    pub config_revision: u64,
    pub last_durable_sequence: u64,
}

/// A request for one page of the bridge's authoritative chunk catalog of a world.
#[derive(Debug, Clone, PartialEq, Eq)]
pub struct WorldEnumerationRequest {
    pub session_id: Vec<u8>,
    pub config_revision: u64,
    pub enumeration_id: u64,
    pub world: Option<WorldIdentity>,
    pub max_items: u32,
    pub bridge_id: Vec<u8>,
    pub page_index: u32,
}

/// The mathematical content of a [`WorldEnumerationRequest`].
pub struct EnumerationRequestView {
    pub session_id: Seq<u8>,
    pub config_revision: u64,
    pub enumeration_id: u64,
    pub world: Option<WorldKey>,
    pub max_items: u32,
    pub bridge_id: Seq<u8>,
    pub page_index: u32,
}

impl View for WorldEnumerationRequest {
    type V = EnumerationRequestView;

    open spec fn view(&self) -> EnumerationRequestView {
        EnumerationRequestView {
            session_id: self.session_id@,
            config_revision: self.config_revision,
            enumeration_id: self.enumeration_id,
            world: opt_world(self.world),
            max_items: self.max_items,
            bridge_id: self.bridge_id@,
            page_index: self.page_index,
        }
    }
}

impl WorldEnumerationRequest {
    /// An independent copy with the same content.
    pub fn duplicate(&self) -> (r: WorldEnumerationRequest)
        ensures
            r@ == self@,
    {
        WorldEnumerationRequest {
            session_id: copy_bytes(self.session_id.as_slice()),
            config_revision: self.config_revision,
            enumeration_id: self.enumeration_id,
            world: duplicate_optional_world(&self.world),
            max_items: self.max_items,
            bridge_id: copy_bytes(self.bridge_id.as_slice()),
            page_index: self.page_index,
        }
    }
}

/// One enumerated chunk.
#[derive(Debug, Clone, PartialEq, Eq)]
pub struct WorldEnumerationItem {
    pub bridge_id: Vec<u8>,
    pub session_id: Vec<u8>,
    pub config_revision: u64,
    pub enumeration_id: u64,
    pub item_index: u32,
    pub world: Option<WorldIdentity>,
    pub coordinate: Option<ChunkCoordinate>,
}

/// The wire code of a successfully completed enumeration page.
pub const ENUMERATION_STATUS_COMPLETE: i32 = 1;

/// The end of one enumeration page.
#[derive(Debug, Clone, PartialEq, Eq)]
pub struct WorldEnumerationComplete {
    pub bridge_id: Vec<u8>,
    pub session_id: Vec<u8>,
    pub config_revision: u64,
    pub enumeration_id: u64,
    pub item_count: u32,
    pub page_index: u32,
    pub status: i32,
    pub failure_reason: String,
    pub has_more: bool,
}

/// A durable dirty chunk as the state repository stores it.
#[derive(Debug, Clone, PartialEq, Eq)]
pub struct DirtyChunk {
    pub world: WorldIdentity,
    pub coordinate: ChunkCoordinate,
    pub revision: u64,
}

#[derive(Debug, Clone, Copy, PartialEq, Eq)]
pub enum DirtyResyncError {
    InvalidSession,
    RevisionMismatch,
    WorldMismatch,
    MissingCursor,
    InvalidCursor,
    InvalidPageSize { max: u32 },
    InvalidIndex { expected: u32, actual: u32 },
    DuplicateIndex(u32),
    ReplayMismatch,
    InvalidCompletion,
}

#[derive(Debug, Clone, Copy, PartialEq, Eq)]
pub enum WorldEnumerationError {
    InvalidSession,
    RevisionMismatch,
    WorldMismatch,
    InvalidPageSize { max: u32 },
    InvalidIndex { expected: u32, actual: u32 },
    DuplicateIndex(u32),
    EnumerationMismatch,
    InvalidCompletion,
}

// ---------------------------------------------------------------------------
// Specifications
// ---------------------------------------------------------------------------

/// A bridge identity is sixteen bytes, not all zero.
pub open spec fn bridge_identity_ok(bridge_id: Seq<u8>) -> bool {
    bridge_id.len() == 16 && !(forall|j: int| 0 <= j < bridge_id.len() ==> bridge_id[j] == 0)
}

/// A requested world is present and well formed.
pub open spec fn world_ok(world: Option<WorldIdentity>) -> bool {
    match world {
        Some(w) => w.is_well_formed(),
        None => false,
    }
}

pub open spec fn min_u32(a: u32, b: u32) -> u32 {
    if a <= b { a } else { b }
}

pub open spec fn resume_verdict(
    watermark: ResumeWatermark,
    bridge_id: Seq<u8>,
    session_id: Seq<u8>,
    config_revision: u64,
) -> Result<(), DirtyResyncError> {
    if !bridge_identity_ok(bridge_id) || watermark.bridge_id@ != bridge_id {
        Err(DirtyResyncError::InvalidSession)
    } else if watermark.session_id@ != session_id || session_id.len() != 16 {
        Err(DirtyResyncError::InvalidSession)
    } else if watermark.config_revision != config_revision {
        Err(DirtyResyncError::RevisionMismatch)
    } else {
        Ok(())
    }
}

pub open spec fn request_verdict(
    request: DirtyReplayRequest,
    bridge_id: Seq<u8>,
    session_id: Seq<u8>,
    config_revision: u64,
    max_items: u32,
) -> Result<(), DirtyResyncError> {
    if !bridge_identity_ok(bridge_id) || request.bridge_id@ != bridge_id {
        Err(DirtyResyncError::InvalidSession)
    } else if request.session_id@ != session_id || session_id.len() != 16 {
        Err(DirtyResyncError::InvalidSession)
    } else if request.config_revision != config_revision {
        Err(DirtyResyncError::RevisionMismatch)
    } else if !world_ok(request.world) {
        Err(DirtyResyncError::WorldMismatch)
    } else if request.max_items == 0 || request.max_items > max_items || request.max_items > MAX_REPLAY_ITEMS {
        Err(DirtyResyncError::InvalidPageSize { max: min_u32(max_items, MAX_REPLAY_ITEMS) })
    } else if request.cursor is None {
        Err(DirtyResyncError::MissingCursor)
    } else {
        Ok(())
    }
}

pub open spec fn item_verdict(
    item: DirtyReplayItem,
    request: DirtyReplayRequest,
    expected_index: u32,
) -> Result<(), DirtyResyncError> {
    if !bridge_identity_ok(request.bridge_id@) || item.bridge_id@ != request.bridge_id@ {
        Err(DirtyResyncError::InvalidSession)
    } else if item.session_id@ != request.session_id@ || item.session_id@.len() != 16 {
        Err(DirtyResyncError::InvalidSession)
    } else if expected_index >= request.max_items {
        Err(DirtyResyncError::InvalidIndex { expected: request.max_items, actual: expected_index })
    } else if item.config_revision != request.config_revision {
        Err(DirtyResyncError::RevisionMismatch)
    } else if item.replay_id != request.replay_id {
        Err(DirtyResyncError::ReplayMismatch)
    } else if opt_world(item.world) != opt_world(request.world) {
        Err(DirtyResyncError::WorldMismatch)
    } else if item.item_index < expected_index {
        Err(DirtyResyncError::DuplicateIndex(item.item_index))
    } else if item.item_index != expected_index {
        Err(DirtyResyncError::InvalidIndex { expected: expected_index, actual: item.item_index })
    } else if item.coordinate is None || item.revision == 0 {
        Err(DirtyResyncError::WorldMismatch)
    } else {
        Ok(())
    }
}

pub open spec fn completion_verdict(
    completion: DirtyResyncComplete,
    request: DirtyReplayRequest,
    expected_count: u32,
) -> Result<(), DirtyResyncError> {
    if !bridge_identity_ok(request.bridge_id@) || completion.bridge_id@ != request.bridge_id@ {
        Err(DirtyResyncError::InvalidSession)
    } else if completion.session_id@ != request.session_id@ || completion.session_id@.len() != 16 {
        Err(DirtyResyncError::InvalidSession)
    } else if expected_count > request.max_items {
        Err(DirtyResyncError::InvalidIndex { expected: request.max_items, actual: expected_count })
    } else if completion.config_revision != request.config_revision || completion.replay_id != request.replay_id {
        Err(DirtyResyncError::RevisionMismatch)
    } else if completion.item_count != expected_count {
        Err(DirtyResyncError::InvalidIndex { expected: expected_count, actual: completion.item_count })
    } else if completion.has_more && completion.last_coordinate is None {
        Err(DirtyResyncError::InvalidCursor)
    } else if completion.has_more && completion.item_count != request.max_items {
        Err(DirtyResyncError::InvalidCompletion)
    } else if !completion.has_more && completion.last_coordinate is Some {
        Err(DirtyResyncError::InvalidCompletion)
    } else if completion.status == DIRTY_RESYNC_STATUS_FAILED && completion.failure_reason@.len() == 0 {
        Err(DirtyResyncError::InvalidCompletion)
    } else if completion.status != DIRTY_RESYNC_STATUS_COMPLETE && completion.status != DIRTY_RESYNC_STATUS_FAILED {
        Err(DirtyResyncError::InvalidCompletion)
    } else {
        Ok(())
    }
}

pub open spec fn enumeration_request_verdict(
    request: WorldEnumerationRequest,
    bridge_id: Seq<u8>,
    session_id: Seq<u8>,
    config_revision: u64,
    max_items: u32,
) -> Result<(), WorldEnumerationError> {
    if !bridge_identity_ok(bridge_id) || request.bridge_id@ != bridge_id || request.session_id@ != session_id
        || session_id.len() != 16 {
        Err(WorldEnumerationError::InvalidSession)
    } else if request.config_revision != config_revision {
        Err(WorldEnumerationError::RevisionMismatch)
    } else if !world_ok(request.world) {
        Err(WorldEnumerationError::WorldMismatch)
    } else if request.enumeration_id == 0 || request.max_items == 0 || request.max_items > max_items
        || request.max_items > MAX_ENUMERATION_ITEMS {
        Err(WorldEnumerationError::InvalidPageSize { max: min_u32(max_items, MAX_ENUMERATION_ITEMS) })
    } else {
        Ok(())
    }
}

pub open spec fn enumeration_item_verdict(
    item: WorldEnumerationItem,
    request: WorldEnumerationRequest,
    expected_index: u32,
) -> Result<(), WorldEnumerationError> {
    if item.bridge_id@ != request.bridge_id@ || item.session_id@ != request.session_id@
        || item.session_id@.len() != 16 {
        Err(WorldEnumerationError::InvalidSession)
    } else if item.config_revision != request.config_revision {
        Err(WorldEnumerationError::RevisionMismatch)
    } else if item.enumeration_id != request.enumeration_id {
        Err(WorldEnumerationError::EnumerationMismatch)
    } else if expected_index >= request.max_items {
        Err(WorldEnumerationError::InvalidIndex { expected: request.max_items, actual: expected_index })
    } else if item.item_index < expected_index {
        Err(WorldEnumerationError::DuplicateIndex(item.item_index))
    } else if item.item_index != expected_index {
        Err(WorldEnumerationError::InvalidIndex { expected: expected_index, actual: item.item_index })
    } else if opt_world(item.world) != opt_world(request.world) || item.coordinate is None {
        Err(WorldEnumerationError::WorldMismatch)
    } else {
        Ok(())
    }
}

pub open spec fn enumeration_completion_verdict(
    completion: WorldEnumerationComplete,
    request: WorldEnumerationRequest,
    expected_count: u32,
) -> Result<(), WorldEnumerationError> {
    if completion.bridge_id@ != request.bridge_id@ || completion.session_id@ != request.session_id@
        || completion.session_id@.len() != 16 {
        Err(WorldEnumerationError::InvalidSession)
    } else if completion.config_revision != request.config_revision
        || completion.enumeration_id != request.enumeration_id {
        Err(WorldEnumerationError::RevisionMismatch)
    } else if expected_count > request.max_items || completion.item_count != expected_count {
        Err(WorldEnumerationError::InvalidIndex { expected: expected_count, actual: completion.item_count })
    } else if completion.page_index != request.page_index {
        Err(WorldEnumerationError::InvalidIndex { expected: request.page_index, actual: completion.page_index })
    } else {
        Ok(())
    }
}

pub open spec fn page_verdict(request: WorldEnumerationRequest, expected_page: u32) -> Result<(), WorldEnumerationError> {
    if request.page_index != expected_page {
        Err(WorldEnumerationError::InvalidIndex { expected: expected_page, actual: request.page_index })
    } else {
        Ok(())
    }
}

// ---------------------------------------------------------------------------
// Executable validators
// ---------------------------------------------------------------------------

/// A bridge identity must be sixteen bytes and not all zero.
pub fn validate_bridge_identity(bridge_id: &[u8]) -> (r: Result<(), DirtyResyncError>)
    ensures
        r == (if bridge_identity_ok(bridge_id@) { Ok(()) } else { Err(DirtyResyncError::InvalidSession) }),
{
    if bridge_id.len() != 16 || all_zero(bridge_id) {
        return Err(DirtyResyncError::InvalidSession);
    }
    Ok(())
}

fn bridge_ok(bridge_id: &[u8]) -> (r: bool)
    ensures
        r == bridge_identity_ok(bridge_id@),
{
    validate_bridge_identity(bridge_id).is_ok()
}

fn optional_world_ok(world: &Option<WorldIdentity>) -> (r: bool)
    ensures
        r == world_ok(*world),
{
    match world {
        Some(w) => w.well_formed(),
        None => false,
    }
}

pub fn validate_resume(
    watermark: &ResumeWatermark,
    bridge_id: &[u8],
    session_id: &[u8],
    config_revision: u64,
) -> (r: Result<(), DirtyResyncError>)
    ensures
        r == resume_verdict(*watermark, bridge_id@, session_id@, config_revision),
{
    if !bridge_ok(bridge_id) || !bytes_equal(watermark.bridge_id.as_slice(), bridge_id) {
        return Err(DirtyResyncError::InvalidSession);
    }
    if !bytes_equal(watermark.session_id.as_slice(), session_id) || session_id.len() != 16 {
        return Err(DirtyResyncError::InvalidSession);
    }
    if watermark.config_revision != config_revision {
        return Err(DirtyResyncError::RevisionMismatch);
    }
    Ok(())
}

pub fn validate_request(
    request: &DirtyReplayRequest,
    bridge_id: &[u8],
    session_id: &[u8],
    config_revision: u64,
    max_items: u32,
) -> (r: Result<(), DirtyResyncError>)
    ensures
        r == request_verdict(*request, bridge_id@, session_id@, config_revision, max_items),
{
    if !bridge_ok(bridge_id) || !bytes_equal(request.bridge_id.as_slice(), bridge_id) {
        return Err(DirtyResyncError::InvalidSession);
    }
    if !bytes_equal(request.session_id.as_slice(), session_id) || session_id.len() != 16 {
        return Err(DirtyResyncError::InvalidSession);
    }
    if request.config_revision != config_revision {
        return Err(DirtyResyncError::RevisionMismatch);
    }
    if !optional_world_ok(&request.world) {
        return Err(DirtyResyncError::WorldMismatch);
    }
    if request.max_items == 0 || request.max_items > max_items || request.max_items > MAX_REPLAY_ITEMS {
        let max = if max_items <= MAX_REPLAY_ITEMS { max_items } else { MAX_REPLAY_ITEMS };
        return Err(DirtyResyncError::InvalidPageSize { max });
    }
    if request.cursor.is_none() {
        return Err(DirtyResyncError::MissingCursor);
    }
    Ok(())
}

pub fn validate_item(
    item: &DirtyReplayItem,
    request: &DirtyReplayRequest,
    expected_index: u32,
) -> (r: Result<(), DirtyResyncError>)
    ensures
        r == item_verdict(*item, *request, expected_index),
{
    if !bridge_ok(request.bridge_id.as_slice()) || !bytes_equal(item.bridge_id.as_slice(), request.bridge_id.as_slice()) {
        return Err(DirtyResyncError::InvalidSession);
    }
    if !bytes_equal(item.session_id.as_slice(), request.session_id.as_slice()) || item.session_id.len() != 16 {
        return Err(DirtyResyncError::InvalidSession);
    }
    if expected_index >= request.max_items {
        return Err(DirtyResyncError::InvalidIndex { expected: request.max_items, actual: expected_index });
    }
    if item.config_revision != request.config_revision {
        return Err(DirtyResyncError::RevisionMismatch);
    }
    if item.replay_id != request.replay_id {
        return Err(DirtyResyncError::ReplayMismatch);
    }
    if !same_optional_world(&item.world, &request.world) {
        return Err(DirtyResyncError::WorldMismatch);
    }
    if item.item_index < expected_index {
        return Err(DirtyResyncError::DuplicateIndex(item.item_index));
    }
    if item.item_index != expected_index {
        return Err(DirtyResyncError::InvalidIndex { expected: expected_index, actual: item.item_index });
    }
    if item.coordinate.is_none() || item.revision == 0 {
        return Err(DirtyResyncError::WorldMismatch);
    }
    Ok(())
}

pub fn validate_completion(
    completion: &DirtyResyncComplete,
    request: &DirtyReplayRequest,
    expected_count: u32,
) -> (r: Result<(), DirtyResyncError>)
    ensures
        r == completion_verdict(*completion, *request, expected_count),
{
    if !bridge_ok(request.bridge_id.as_slice()) || !bytes_equal(completion.bridge_id.as_slice(), request.bridge_id.as_slice()) {
        return Err(DirtyResyncError::InvalidSession);
    }
    if !bytes_equal(completion.session_id.as_slice(), request.session_id.as_slice()) || completion.session_id.len() != 16 {
        return Err(DirtyResyncError::InvalidSession);
    }
    if expected_count > request.max_items {
        return Err(DirtyResyncError::InvalidIndex { expected: request.max_items, actual: expected_count });
    }
    if completion.config_revision != request.config_revision || completion.replay_id != request.replay_id {
        return Err(DirtyResyncError::RevisionMismatch);
    }
    if completion.item_count != expected_count {
        return Err(DirtyResyncError::InvalidIndex { expected: expected_count, actual: completion.item_count });
    }
    if completion.has_more {
        if completion.last_coordinate.is_none() {
            return Err(DirtyResyncError::InvalidCursor);
        }
        if completion.item_count != request.max_items {
            return Err(DirtyResyncError::InvalidCompletion);
        }
    } else if completion.last_coordinate.is_some() {
        return Err(DirtyResyncError::InvalidCompletion);
    }
    if completion.status == DIRTY_RESYNC_STATUS_FAILED && completion.failure_reason.as_str().is_empty() {
        return Err(DirtyResyncError::InvalidCompletion);
    }
    if completion.status != DIRTY_RESYNC_STATUS_COMPLETE && completion.status != DIRTY_RESYNC_STATUS_FAILED {
        return Err(DirtyResyncError::InvalidCompletion);
    }
    Ok(())
}

pub fn validate_enumeration_request(
    request: &WorldEnumerationRequest,
    bridge_id: &[u8],
    session_id: &[u8],
    config_revision: u64,
    max_items: u32,
) -> (r: Result<(), WorldEnumerationError>)
    ensures
        r == enumeration_request_verdict(*request, bridge_id@, session_id@, config_revision, max_items),
{
    if !bridge_ok(bridge_id) || !bytes_equal(request.bridge_id.as_slice(), bridge_id)
        || !bytes_equal(request.session_id.as_slice(), session_id) || session_id.len() != 16 {
        return Err(WorldEnumerationError::InvalidSession);
    }
    if request.config_revision != config_revision {
        return Err(WorldEnumerationError::RevisionMismatch);
    }
    if !optional_world_ok(&request.world) {
        return Err(WorldEnumerationError::WorldMismatch);
    }
    if request.enumeration_id == 0 || request.max_items == 0 || request.max_items > max_items
        || request.max_items > MAX_ENUMERATION_ITEMS {
        let max = if max_items <= MAX_ENUMERATION_ITEMS { max_items } else { MAX_ENUMERATION_ITEMS };
        return Err(WorldEnumerationError::InvalidPageSize { max });
    }
    Ok(())
}

pub fn validate_enumeration_item(
    item: &WorldEnumerationItem,
    request: &WorldEnumerationRequest,
    expected_index: u32,
) -> (r: Result<(), WorldEnumerationError>)
    ensures
        r == enumeration_item_verdict(*item, *request, expected_index),
{
    if !bytes_equal(item.bridge_id.as_slice(), request.bridge_id.as_slice())
        || !bytes_equal(item.session_id.as_slice(), request.session_id.as_slice()) || item.session_id.len() != 16 {
        return Err(WorldEnumerationError::InvalidSession);
    }
    if item.config_revision != request.config_revision {
        return Err(WorldEnumerationError::RevisionMismatch);
    }
    if item.enumeration_id != request.enumeration_id {
        return Err(WorldEnumerationError::EnumerationMismatch);
    }
    if expected_index >= request.max_items {
        return Err(WorldEnumerationError::InvalidIndex { expected: request.max_items, actual: expected_index });
    }
    if item.item_index < expected_index {
        return Err(WorldEnumerationError::DuplicateIndex(item.item_index));
    }
    if item.item_index != expected_index {
        return Err(WorldEnumerationError::InvalidIndex { expected: expected_index, actual: item.item_index });
    }
    if !same_optional_world(&item.world, &request.world) || item.coordinate.is_none() {
        return Err(WorldEnumerationError::WorldMismatch);
    }
    Ok(())
}

pub fn validate_enumeration_completion(
    completion: &WorldEnumerationComplete,
    request: &WorldEnumerationRequest,
    expected_count: u32,
) -> (r: Result<(), WorldEnumerationError>)
    ensures
        r == enumeration_completion_verdict(*completion, *request, expected_count),
{
    if !bytes_equal(completion.bridge_id.as_slice(), request.bridge_id.as_slice())
        || !bytes_equal(completion.session_id.as_slice(), request.session_id.as_slice())
        || completion.session_id.len() != 16 {
        return Err(WorldEnumerationError::InvalidSession);
    }
    if completion.config_revision != request.config_revision || completion.enumeration_id != request.enumeration_id {
        return Err(WorldEnumerationError::RevisionMismatch);
    }
    if expected_count > request.max_items || completion.item_count != expected_count {
        return Err(WorldEnumerationError::InvalidIndex { expected: expected_count, actual: completion.item_count });
    }
    if completion.page_index != request.page_index {
        return Err(WorldEnumerationError::InvalidIndex { expected: request.page_index, actual: completion.page_index });
    }
    Ok(())
}

pub fn validate_enumeration_page(
    request: &WorldEnumerationRequest,
    expected_page: u32,
) -> (r: Result<(), WorldEnumerationError>)
    ensures
        r == page_verdict(*request, expected_page),
{
    if request.page_index != expected_page {
        return Err(WorldEnumerationError::InvalidIndex { expected: expected_page, actual: request.page_index });
    }
    Ok(())
}

// ---------------------------------------------------------------------------
// Replay pages
// ---------------------------------------------------------------------------

/// Whether `item` is the replay item that the backend emits for `dirty` at `index`.
pub open spec fn is_replay_item(
    item: DirtyReplayItem,
    dirty: DirtyChunk,
    bridge_id: Seq<u8>,
    session_id: Seq<u8>,
    config_revision: u64,
    replay_id: u64,
    index: u32,
) -> bool {
    &&& item.bridge_id@ == bridge_id
    &&& item.session_id@ == session_id
    &&& item.config_revision == config_revision
    &&& item.replay_id == replay_id
    &&& item.item_index == index
    &&& opt_world(item.world) == Some(dirty.world@)
    &&& item.coordinate == Some(dirty.coordinate)
    &&& item.revision == dirty.revision
}

/// The watermark a resumed session announces: the bridge's last durable
/// sequence from its stored checkpoint, or zero where it has none.
pub fn resume_watermark(
    bridge_id: &[u8],
    session_id: &[u8],
    config_revision: u64,
    checkpoint: Option<u64>,
) -> (w: ResumeWatermark)
    ensures
        w.bridge_id@ == bridge_id@,
        w.session_id@ == session_id@,
        w.config_revision == config_revision,
        w.last_durable_sequence == match checkpoint {
            Some(sequence) => sequence,
            None => 0,
        },
{
    ResumeWatermark {
        bridge_id: copy_bytes(bridge_id),
        session_id: copy_bytes(session_id),
        config_revision,
        last_durable_sequence: match checkpoint {
            Some(sequence) => sequence,
            None => 0,
        },
    }
}

/// Builds the replay item for one durable dirty chunk.
pub fn replay_item(
    dirty: &DirtyChunk,
    bridge_id: &[u8],
    session_id: &[u8],
    config_revision: u64,
    replay_id: u64,
    item_index: u32,
) -> (item: DirtyReplayItem)
    ensures
        is_replay_item(item, *dirty, bridge_id@, session_id@, config_revision, replay_id, item_index),
{
    DirtyReplayItem {
        bridge_id: copy_bytes(bridge_id),
        session_id: copy_bytes(session_id),
        config_revision,
        replay_id,
        item_index,
        world: Some(dirty.world.duplicate()),
        coordinate: Some(dirty.coordinate),
        revision: dirty.revision,
    }
}

/// The verdict that `item_verdict` gives the item emitted for `dirty` at `index`.
pub open spec fn row_verdict(
    dirty: DirtyChunk,
    index: u32,
    request: DirtyReplayRequest,
    bridge_id: Seq<u8>,
    session_id: Seq<u8>,
    config_revision: u64,
) -> Result<(), DirtyResyncError> {
    if !bridge_identity_ok(request.bridge_id@) || bridge_id != request.bridge_id@ {
        Err(DirtyResyncError::InvalidSession)
    } else if session_id != request.session_id@ || session_id.len() != 16 {
        Err(DirtyResyncError::InvalidSession)
    } else if index >= request.max_items {
        Err(DirtyResyncError::InvalidIndex { expected: request.max_items, actual: index })
    } else if config_revision != request.config_revision {
        Err(DirtyResyncError::RevisionMismatch)
    } else if Some(dirty.world@) != opt_world(request.world) {
        Err(DirtyResyncError::WorldMismatch)
    } else if dirty.revision == 0 {
        Err(DirtyResyncError::WorldMismatch)
    } else {
        Ok(())
    }
}

/// How many of the fetched rows a page carries: one extra row only signals that more remain.
pub open spec fn page_rows(rows_len: int, max_items: u32) -> int {
    if rows_len > max_items { rows_len - 1 } else { rows_len }
}

/// Whether `c` is the completion that closes a page built from rows of which `count` are carried.
pub open spec fn is_page_completion(
    c: DirtyResyncComplete,
    rows: Seq<DirtyChunk>,
    count: int,
    request: DirtyReplayRequest,
    bridge_id: Seq<u8>,
    session_id: Seq<u8>,
    config_revision: u64,
) -> bool {
    let has_more = rows.len() > request.max_items;
    &&& c.bridge_id@ == bridge_id
    &&& c.session_id@ == session_id
    &&& c.config_revision == config_revision
    &&& c.replay_id == request.replay_id
    &&& c.item_count == count
    &&& c.status == DIRTY_RESYNC_STATUS_COMPLETE
    &&& c.failure_reason@.len() == 0
    &&& c.has_more == has_more
    &&& c.last_coordinate == (if has_more && count > 0 { Some(rows[count - 1].coordinate) } else { None::<ChunkCoordinate> })
}

/// The items accepted so far and how the page ended.
pub struct ReplayPage {
    pub items: Vec<DirtyReplayItem>,
    pub completion: Result<DirtyResyncComplete, DirtyResyncError>,
}

/// The replay state for one request: how many items were accepted and whether
/// the page was completed.
#[derive(Debug, Clone, PartialEq, Eq)]
pub struct ReplayState {
    request: DirtyReplayRequest,
    next_index: u32,
    terminal: bool,
}

impl ReplayState {
    pub closed spec fn spec_request(&self) -> DirtyReplayRequest {
        self.request
    }

    pub closed spec fn spec_next_index(&self) -> u32 {
        self.next_index
    }

    pub closed spec fn spec_terminal(&self) -> bool {
        self.terminal
    }

    /// Starts a replay after validating the request against the session.
    pub fn new(
        request: DirtyReplayRequest,
        bridge_id: &[u8],
        session_id: &[u8],
        config_revision: u64,
    ) -> (r: Result<Self, DirtyResyncError>)
        ensures
            match r {
                Ok(state) => {
                    &&& request_verdict(request, bridge_id@, session_id@, config_revision, MAX_REPLAY_ITEMS) is Ok
                    &&& state.spec_request() == request
                    &&& state.spec_next_index() == 0
                    &&& !state.spec_terminal()
                },
                Err(e) => request_verdict(request, bridge_id@, session_id@, config_revision, MAX_REPLAY_ITEMS)
                    == Err::<(), DirtyResyncError>(e),
            },
    {
        validate_request(&request, bridge_id, session_id, config_revision, MAX_REPLAY_ITEMS)?;
        Ok(ReplayState { request, next_index: 0, terminal: false })
    }

    /// Accepts the next item; a completed replay accepts nothing more.
    pub fn accept_item(&mut self, item: &DirtyReplayItem) -> (r: Result<(), DirtyResyncError>)
        ensures
            final(self).spec_request() == old(self).spec_request(),
            final(self).spec_terminal() == old(self).spec_terminal(),
            old(self).spec_terminal() ==> r == Err::<(), DirtyResyncError>(DirtyResyncError::InvalidCompletion),
            !old(self).spec_terminal() ==> r == item_verdict(*item, old(self).spec_request(), old(self).spec_next_index()),
            r is Ok ==> final(self).spec_next_index() == old(self).spec_next_index() + 1,
            r is Err ==> final(self).spec_next_index() == old(self).spec_next_index(),
    {
        if self.terminal {
            return Err(DirtyResyncError::InvalidCompletion);
        }
        validate_item(item, &self.request, self.next_index)?;
        self.next_index = self.next_index + 1;
        Ok(())
    }

    /// Closes the replay page; afterwards the state is terminal.
    pub fn complete(&mut self, completion: &DirtyResyncComplete) -> (r: Result<(), DirtyResyncError>)
        ensures
            final(self).spec_request() == old(self).spec_request(),
            final(self).spec_next_index() == old(self).spec_next_index(),
            old(self).spec_terminal() ==> r == Err::<(), DirtyResyncError>(DirtyResyncError::InvalidCompletion),
            !old(self).spec_terminal() ==> r == completion_verdict(*completion, old(self).spec_request(), old(self).spec_next_index()),
            final(self).spec_terminal() == (old(self).spec_terminal() || r is Ok),
    {
        if self.terminal {
            return Err(DirtyResyncError::InvalidCompletion);
        }
        validate_completion(completion, &self.request, self.next_index)?;
        self.terminal = true;
        Ok(())
    }

    pub fn request(&self) -> (r: &DirtyReplayRequest)
        ensures
            *r == self.spec_request(),
    {
        &self.request
    }

    pub fn next_index(&self) -> (r: u32)
        ensures
            r == self.spec_next_index(),
    {
        self.next_index
    }

    pub fn terminal(&self) -> (r: bool)
        ensures
            r == self.spec_terminal(),
    {
        self.terminal
    }

    /// Serves one page of a fresh replay from the rows the repository returned
    /// (at most one row more than the page holds, which signals that more remain).
    /// Each emitted item is accepted before it is handed out; the page is then
    /// completed. The items accepted before a failure are returned with it.
    pub fn serve_page(
        &mut self,
        rows: &Vec<DirtyChunk>,
        bridge_id: &[u8],
        session_id: &[u8],
        config_revision: u64,
    ) -> (page: ReplayPage)
        requires
            old(self).spec_next_index() == 0,
            !old(self).spec_terminal(),
        ensures
            final(self).spec_request() == old(self).spec_request(),
            page.items@.len() <= page_rows(rows@.len() as int, old(self).spec_request().max_items),
            final(self).spec_next_index() == page.items@.len(),
            forall|i: int| 0 <= i < page.items@.len() ==> {
                &&& row_verdict(#[trigger] rows@[i], i as u32, old(self).spec_request(), bridge_id@, session_id@, config_revision) is Ok
                &&& is_replay_item(page.items@[i], rows@[i], bridge_id@, session_id@, config_revision,
                    old(self).spec_request().replay_id, i as u32)
            },
            page.items@.len() < page_rows(rows@.len() as int, old(self).spec_request().max_items) ==> {
                &&& row_verdict(rows@[page.items@.len() as int], page.items@.len() as u32, old(self).spec_request(),
                    bridge_id@, session_id@, config_revision) is Err
                &&& page.completion == Err::<DirtyResyncComplete, DirtyResyncError>(row_verdict(
                    rows@[page.items@.len() as int], page.items@.len() as u32, old(self).spec_request(),
                    bridge_id@, session_id@, config_revision)->Err_0)
            },
            page.items@.len() == page_rows(rows@.len() as int, old(self).spec_request().max_items) ==> match page.completion {
                Ok(c) => is_page_completion(c, rows@, page.items@.len() as int, old(self).spec_request(),
                    bridge_id@, session_id@, config_revision)
                    && completion_verdict(c, old(self).spec_request(), page.items@.len() as u32) is Ok,
                Err(e) => forall|c: DirtyResyncComplete| is_page_completion(c, rows@, page.items@.len() as int,
                    old(self).spec_request(), bridge_id@, session_id@, config_revision)
                    ==> completion_verdict(c, old(self).spec_request(), page.items@.len() as u32)
                        == Err::<(), DirtyResyncError>(e),
            },
            final(self).spec_terminal() == page.completion is Ok,
    {
        let ghost request = self.request;
        let max = self.request.max_items;
        let has_more = rows.len() > max as usize;
        let count = if has_more { rows.len() - 1 } else { rows.len() };
        let replay_id = self.request.replay_id;
        let mut items: Vec<DirtyReplayItem> = Vec::new();
        let mut i: usize = 0;
        while i < count
            invariant
                count == page_rows(rows@.len() as int, request.max_items),
                max == request.max_items,
                replay_id == request.replay_id,
                self.request == request,
                request == old(self).spec_request(),
                !self.terminal,
                i <= count,
                i <= max,
                self.next_index == i,
                items@.len() == i,
                forall|j: int| 0 <= j < i ==> {
                    &&& row_verdict(#[trigger] rows@[j], j as u32, request, bridge_id@, session_id@, config_revision) is Ok
                    &&& is_replay_item(items@[j], rows@[j], bridge_id@, session_id@, config_revision, replay_id, j as u32)
                },
            decreases count - i,
        {
            let item = replay_item(&rows[i], bridge_id, session_id, config_revision, replay_id, i as u32);
            let accepted = self.accept_item(&item);
            if let Err(error) = accepted {
                return ReplayPage { items, completion: Err(error) };
            }
            items.push(item);
            i = i + 1;
        }
        let last_coordinate = if has_more && count > 0 { Some(rows[count - 1].coordinate) } else { None };
        let completion = DirtyResyncComplete {
            bridge_id: copy_bytes(bridge_id),
            session_id: copy_bytes(session_id),
            config_revision,
            replay_id,
            item_count: count as u32,
            status: DIRTY_RESYNC_STATUS_COMPLETE,
            failure_reason: String::new(),
            has_more,
            last_coordinate,
        };
        match self.complete(&completion) {
            Ok(()) => ReplayPage { items, completion: Ok(completion) },
            Err(error) => ReplayPage { items, completion: Err(error) },
        }
    }
}


/// A page served for a request that passed validation, from at most one row more
/// than the page holds, all of the requested world and with non-zero revisions,
/// is accepted in full: every row yields an accepted item and the closing
/// completion validates.
pub proof fn lemma_served_page_is_accepted(
    request: DirtyReplayRequest,
    bridge_id: Seq<u8>,
    session_id: Seq<u8>,
    config_revision: u64,
    rows: Seq<DirtyChunk>,
)
    requires
        request_verdict(request, bridge_id, session_id, config_revision, MAX_REPLAY_ITEMS) is Ok,
        rows.len() <= request.max_items + 1,
        forall|i: int| 0 <= i < rows.len() ==> Some(#[trigger] rows[i].world@) == opt_world(request.world)
            && rows[i].revision != 0,
    ensures
        forall|i: int| 0 <= i < page_rows(rows.len() as int, request.max_items) ==>
            row_verdict(#[trigger] rows[i], i as u32, request, bridge_id, session_id, config_revision) is Ok,
        forall|c: DirtyResyncComplete| is_page_completion(c, rows, page_rows(rows.len() as int, request.max_items),
            request, bridge_id, session_id, config_revision)
            ==> #[trigger] completion_verdict(c, request, page_rows(rows.len() as int, request.max_items) as u32) is Ok,
{
    assert forall|i: int| 0 <= i < page_rows(rows.len() as int, request.max_items) implies
        row_verdict(#[trigger] rows[i], i as u32, request, bridge_id, session_id, config_revision) is Ok by {
        assert(Some(rows[i].world@) == opt_world(request.world));
    }
}

/// An enumeration item is taken into a request's catalog only where it
/// belongs to that request: it names the request's world, session, bridge,
/// configuration revision and enumeration, carries a coordinate, and has the
/// expected index within the page. An item that agrees on everything but
/// names another world (or none) is refused as a world mismatch.
pub proof fn lemma_enumeration_item_belongs_to_its_request(
    item: WorldEnumerationItem,
    request: WorldEnumerationRequest,
    expected_index: u32,
)
    ensures
        enumeration_item_verdict(item, request, expected_index) is Ok ==> {
            &&& opt_world(item.world) == opt_world(request.world)
            &&& item.coordinate is Some
            &&& item.session_id@ == request.session_id@
            &&& item.bridge_id@ == request.bridge_id@
            &&& item.config_revision == request.config_revision
            &&& item.enumeration_id == request.enumeration_id
            &&& item.item_index == expected_index
            &&& expected_index < request.max_items
        },
        item.bridge_id@ == request.bridge_id@ && item.session_id@ == request.session_id@
            && item.session_id@.len() == 16 && item.config_revision == request.config_revision
            && item.enumeration_id == request.enumeration_id && expected_index < request.max_items
            && item.item_index == expected_index && opt_world(item.world) != opt_world(request.world)
            ==> enumeration_item_verdict(item, request, expected_index) == Err::<(), WorldEnumerationError>(
            WorldEnumerationError::WorldMismatch,
        ),
{
}

/// A replayed dirty item is taken only where it belongs to its request: it
/// names the request's world, session, bridge, configuration revision and
/// replay, carries a coordinate and a revision, and has the expected index
/// within the page.
pub proof fn lemma_replay_item_belongs_to_its_request(
    item: DirtyReplayItem,
    request: DirtyReplayRequest,
    expected_index: u32,
)
    ensures
        item_verdict(item, request, expected_index) is Ok ==> {
            &&& opt_world(item.world) == opt_world(request.world)
            &&& item.coordinate is Some
            &&& item.revision != 0
            &&& item.session_id@ == request.session_id@
            &&& item.bridge_id@ == request.bridge_id@
            &&& item.config_revision == request.config_revision
            &&& item.replay_id == request.replay_id
            &&& item.item_index == expected_index
            &&& expected_index < request.max_items
        },
{
}

} // verus!
