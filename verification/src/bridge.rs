//! The decisions of the bridge connection loop: whether the bridge accepted
//! the handshake, which inbound envelopes are refused and how, how control
//! requests are dispatched, which stored worlds a configuration drops, and
//! how the loop's end is reported.
use vstd::prelude::*;
use crate::bootstrap::BootstrapError;
use crate::config::WorldConfig;
use crate::control::{BackendResultCode, ControlKind};
use crate::dirty_resync::DirtyResyncError;
use crate::text::replay_error_text;
use crate::session::SessionOutcome;
use crate::wire::{AckStatus, ProtocolError, ProtocolErrorCode, WorldIdentity, WorldKey, PROTOCOL_MAJOR};

verus! {

/// The most control requests that run at once in the background.
pub const MAX_CONTROL_TASKS: usize = 16;

/// Whether the bridge's answer to the hello accepts this session: the
/// envelope and its payload speak this protocol version, the envelope names
/// this session, and the bridge said yes. A refusal carries the bridge's
/// reason.
pub fn check_hello_ack(
    envelope_major: u32,
    session_matches: bool,
    payload_major: u32,
    accepted: bool,
    rejection_reason: String,
) -> (r: Result<(), BootstrapError>)
    ensures
        (envelope_major == PROTOCOL_MAJOR && session_matches && payload_major == PROTOCOL_MAJOR && accepted) ==> r
            is Ok,
        !(envelope_major == PROTOCOL_MAJOR && session_matches && payload_major == PROTOCOL_MAJOR && accepted) ==> r
            == Err::<(), BootstrapError>(BootstrapError::Rejected(rejection_reason)),
{
    if envelope_major != PROTOCOL_MAJOR || !session_matches || payload_major != PROTOCOL_MAJOR || !accepted {
        return Err(BootstrapError::Rejected(rejection_reason));
    }
    Ok(())
}

/// The text of a refused unauthenticated envelope.
pub open spec fn gate_message() -> Seq<char> {
    "bridge envelope failed authenticated protocol/session validation"@
}

/// The report of an envelope of another protocol version or another
/// session, or nothing for one that passes.
pub fn envelope_gate(major: u32, session_matches: bool, sequence: u64) -> (r: Option<ProtocolError>)
    ensures
        (major == PROTOCOL_MAJOR && session_matches) ==> r is None,
        !(major == PROTOCOL_MAJOR && session_matches) ==> (r matches Some(e) && e.code == (if major != PROTOCOL_MAJOR {
            ProtocolErrorCode::UnsupportedVersion
        } else {
            ProtocolErrorCode::InvalidMessage
        }) && e.message@ == gate_message() && e.fatal && e.offending_sequence == sequence && e.config_revision
            == 0),
{
    if major == PROTOCOL_MAJOR && session_matches {
        return None;
    }
    let code = if major != PROTOCOL_MAJOR {
        ProtocolErrorCode::UnsupportedVersion
    } else {
        ProtocolErrorCode::InvalidMessage
    };
    Some(
        ProtocolError {
            code,
            message: String::from_str("bridge envelope failed authenticated protocol/session validation"),
            fatal: true,
            offending_sequence: sequence,
            config_revision: 0,
        },
    )
}

/// The text of a replay request refused before recovery.
pub open spec fn early_replay_message() -> Seq<char> {
    "DirtyReplayRequest before authenticated recovery"@
}

/// The report of a replay request that comes before the bridge identity is
/// known and a configuration made recovery ready, or nothing once it may run.
pub fn replay_gate(identity_known: bool, recovery_ready: bool, sequence: u64, config_revision: u64) -> (r: Option<
    ProtocolError,
>)
    ensures
        (identity_known && recovery_ready) ==> r is None,
        !(identity_known && recovery_ready) ==> (r matches Some(e) && e.code == ProtocolErrorCode::InvalidMessage
            && e.message@ == early_replay_message() && e.fatal && e.offending_sequence == sequence
            && e.config_revision == config_revision),
{
    if identity_known && recovery_ready {
        return None;
    }
    Some(
        ProtocolError {
            code: ProtocolErrorCode::InvalidMessage,
            message: String::from_str("DirtyReplayRequest before authenticated recovery"),
            fatal: true,
            offending_sequence: sequence,
            config_revision,
        },
    )
}

/// The fatal report of a replay error: its debug text as an invalid message.
pub fn replay_error(error: DirtyResyncError) -> (e: ProtocolError)
    ensures
        e.code == ProtocolErrorCode::InvalidMessage,
        e.message@ == replay_error_text(error),
        e.fatal,
        e.offending_sequence == 0,
        e.config_revision == 0,
{
    ProtocolError {
        code: ProtocolErrorCode::InvalidMessage,
        message: error.debug_text(),
        fatal: true,
        offending_sequence: 0,
        config_revision: 0,
    }
}

/// The fatal report of a handler that failed on the envelope `sequence`.
pub fn handler_failure(message: String, sequence: u64, config_revision: u64) -> (e: ProtocolError)
    ensures
        e.code == ProtocolErrorCode::Internal,
        e.message == message,
        e.fatal,
        e.offending_sequence == sequence,
        e.config_revision == config_revision,
{
    ProtocolError { code: ProtocolErrorCode::Internal, message, fatal: true, offending_sequence: sequence, config_revision }
}

/// The report of a refused configuration: an invalid message that leaves
/// the connection open.
pub fn config_rejection(message: String, sequence: u64, config_revision: u64) -> (e: ProtocolError)
    ensures
        e.code == ProtocolErrorCode::InvalidMessage,
        e.message == message,
        !e.fatal,
        e.offending_sequence == sequence,
        e.config_revision == config_revision,
{
    ProtocolError {
        code: ProtocolErrorCode::InvalidMessage,
        message,
        fatal: false,
        offending_sequence: sequence,
        config_revision,
    }
}

/// Whether a session outcome accepted its envelope: an accepting
/// acknowledgement and no protocol error.
pub open spec fn outcome_accepted(o: SessionOutcome) -> bool {
    (o.spec_ack() matches Some(a) && a.status == AckStatus::Accepted) && o.spec_protocol_error() is None
}

pub fn accepted(outcome: &SessionOutcome) -> (b: bool)
    ensures
        b == outcome_accepted(*outcome),
{
    let acked = match outcome.ack() {
        Some(a) => a.status == AckStatus::Accepted,
        None => false,
    };
    acked && outcome.protocol_error().is_none()
}

/// Which protocol error a message's handling reports first.
#[derive(Debug, Clone, Copy, PartialEq, Eq, Structural)]
pub enum ReportSource {
    /// None.
    Nothing,
    /// The session's, for a message it refused or whose handler failed.
    Session,
    /// The refusal of the configuration the message carries.
    Refusal,
}

/// What the connection does with a message once the session answered it.
#[derive(Debug, Clone, Copy, PartialEq, Eq, Structural)]
pub struct MessagePlan {
    /// The protocol error sent first.
    pub report: ReportSource,
    /// Whether the connection ends after that report.
    pub stop: bool,
    /// Whether the message's work goes on: a snapshot answer is dispatched,
    /// a configuration applied (and `Ready` sent), a control request run.
    pub proceed: bool,
    /// Whether the session's acknowledgement is sent, after that work.
    pub acknowledge: bool,
}

/// The plan for a message the session answered with `outcome`, where
/// `refusal` is the refusal of the configuration it carries, if any.
pub open spec fn message_plan(outcome: SessionOutcome, refusal: Option<ProtocolError>) -> MessagePlan {
    let report = if outcome.spec_protocol_error() is Some {
        ReportSource::Session
    } else if refusal is Some {
        ReportSource::Refusal
    } else {
        ReportSource::Nothing
    };
    let stop = match report {
        ReportSource::Session => outcome.spec_protocol_error()->0.fatal,
        ReportSource::Refusal => refusal->0.fatal,
        ReportSource::Nothing => false,
    };
    MessagePlan {
        report,
        stop,
        proceed: !stop && outcome_accepted(outcome) && refusal is None,
        acknowledge: !stop && outcome.spec_ack() is Some,
    }
}

/// Plans what follows the session's answer to a message: the session's
/// protocol error is reported first, else the refusal of the message's
/// configuration; a fatal report ends the connection; the message's work goes
/// on only where the session accepted it and its configuration is valid; and
/// the acknowledgement follows unless the connection ended.
pub fn plan_message(outcome: &SessionOutcome, refusal: &Option<ProtocolError>) -> (p: MessagePlan)
    ensures
        p == message_plan(*outcome, *refusal),
{
    let (report, stop) = match outcome.protocol_error() {
        Some(e) => (ReportSource::Session, e.fatal),
        None => match refusal {
            Some(e) => (ReportSource::Refusal, e.fatal),
            None => (ReportSource::Nothing, false),
        },
    };
    let proceed = !stop && accepted(outcome) && refusal.is_none();
    let acknowledge = !stop && outcome.ack().is_some();
    MessagePlan { report, stop, proceed, acknowledge }
}

/// A refused configuration is reported and stops nothing: where the session
/// accepted the message, the configuration's refusal (an invalid message, as
/// [`config_rejection`] makes it) is reported, the connection stays open, the
/// message is still acknowledged, and the configuration is not applied, so
/// no `Ready` follows.
pub proof fn lemma_refused_config_stops_nothing(outcome: SessionOutcome, refusal: ProtocolError)
    requires
        outcome_accepted(outcome),
        !refusal.fatal,
    ensures
        message_plan(outcome, Some(refusal)) == (MessagePlan {
            report: ReportSource::Refusal,
            stop: false,
            proceed: false,
            acknowledge: true,
        }),
{
}

/// How a control request is run.
#[derive(Debug, Clone, Copy, PartialEq, Eq, Structural)]
pub enum ControlDispatch {
    /// Start a render in the background.
    Spawn,
    /// Too many renders are starting: answer that the backend is unavailable.
    Busy,
    /// Run it before the next envelope.
    Inline,
}

/// Render starts that the control table leaves to the backend run in the
/// background, up to [`MAX_CONTROL_TASKS`] at once; every other request runs
/// at once.
pub fn control_dispatch(baseline: BackendResultCode, kind: Option<ControlKind>, running: usize) -> (d: ControlDispatch)
    ensures
        d == (if baseline == BackendResultCode::BackendUnavailable && (kind == Some(ControlKind::FullRender) || kind
            == Some(ControlKind::RadiusRender)) {
            if running >= MAX_CONTROL_TASKS {
                ControlDispatch::Busy
            } else {
                ControlDispatch::Spawn
            }
        } else {
            ControlDispatch::Inline
        }),
{
    let render = match kind {
        Some(ControlKind::FullRender) | Some(ControlKind::RadiusRender) => true,
        _ => false,
    };
    if baseline == BackendResultCode::BackendUnavailable && render {
        if running >= MAX_CONTROL_TASKS {
            ControlDispatch::Busy
        } else {
            ControlDispatch::Spawn
        }
    } else {
        ControlDispatch::Inline
    }
}

/// How the loop's end is reported: a shutdown followed by the transport
/// closing is a clean end; else the error that ended the loop, if any.
pub fn loop_outcome(shutdown_received: bool, error: Option<BootstrapError>, error_is_transport_io: bool) -> (r: Result<
    (),
    BootstrapError,
>)
    ensures
        (shutdown_received && error is Some && error_is_transport_io) ==> r is Ok,
        !(shutdown_received && error is Some && error_is_transport_io) ==> match error {
            Some(e) => r == Err::<(), BootstrapError>(e),
            None => r is Ok,
        },
{
    match error {
        Some(e) => {
            if shutdown_received && error_is_transport_io {
                Ok(())
            } else {
                Err(e)
            }
        },
        None => Ok(()),
    }
}

/// The identities that a configuration's worlds carry, in order.
pub open spec fn identities_of(worlds: Seq<WorldConfig>) -> Seq<WorldKey>
    decreases worlds.len(),
{
    if worlds.len() == 0 {
        Seq::empty()
    } else {
        let rest = identities_of(worlds.drop_last());
        match worlds.last().identity {
            Some(w) => rest.push(w@),
            None => rest,
        }
    }
}

/// The identities that a configuration's worlds carry.
pub fn configured_identities(worlds: &Vec<WorldConfig>) -> (r: Vec<WorldIdentity>)
    ensures
        r@.map_values(|w: WorldIdentity| w@) == identities_of(worlds@),
{
    let mut r: Vec<WorldIdentity> = Vec::new();
    let mut i: usize = 0;
    while i < worlds.len()
        invariant
            i <= worlds@.len(),
            r@.map_values(|w: WorldIdentity| w@) == identities_of(worlds@.subrange(0, i as int)),
        decreases worlds@.len() - i,
    {
        proof {
            assert(worlds@.subrange(0, i + 1).drop_last() =~= worlds@.subrange(0, i as int));
        }
        if let Some(w) = &worlds[i].identity {
            let ghost before = r@;
            r.push(w.duplicate());
            proof {
                assert(r@.map_values(|w: WorldIdentity| w@) =~= before.map_values(|w: WorldIdentity| w@).push(
                    worlds@[i as int].identity->0@,
                ));
            }
        }
        i = i + 1;
    }
    assert(worlds@.subrange(0, worlds@.len() as int) =~= worlds@);
    r
}

/// The stored worlds that a configuration no longer names, in their order.
pub open spec fn dropped_worlds(stored: Seq<WorldKey>, configured: Seq<WorldKey>) -> Seq<WorldKey> {
    stored.filter(|w: WorldKey| !configured.contains(w))
}

fn names_world(list: &Vec<WorldIdentity>, w: &WorldIdentity) -> (b: bool)
    ensures
        b == list@.map_values(|x: WorldIdentity| x@).contains(w@),
{
    let ghost keys = list@.map_values(|x: WorldIdentity| x@);
    let mut i: usize = 0;
    while i < list.len()
        invariant
            i <= list@.len(),
            keys == list@.map_values(|x: WorldIdentity| x@),
            forall|j: int| 0 <= j < i ==> keys[j] != w@,
        decreases list@.len() - i,
    {
        if list[i].same(w) {
            assert(keys[i as int] == w@);
            return true;
        }
        i = i + 1;
    }
    false
}

/// Which stored worlds a new configuration removes: those none of its
/// identified worlds names, namespace, value and epoch alike.
pub fn worlds_to_remove(configured: &Vec<WorldIdentity>, stored: &Vec<WorldIdentity>) -> (r: Vec<WorldIdentity>)
    ensures
        r@.map_values(|w: WorldIdentity| w@) == dropped_worlds(
            stored@.map_values(|w: WorldIdentity| w@),
            configured@.map_values(|w: WorldIdentity| w@),
        ),
{
    let ghost keys = stored@.map_values(|w: WorldIdentity| w@);
    let ghost names = configured@.map_values(|w: WorldIdentity| w@);
    let mut r: Vec<WorldIdentity> = Vec::new();
    let mut i: usize = 0;
    while i < stored.len()
        invariant
            i <= stored@.len(),
            keys == stored@.map_values(|w: WorldIdentity| w@),
            names == configured@.map_values(|w: WorldIdentity| w@),
            r@.map_values(|w: WorldIdentity| w@) == keys.subrange(0, i as int).filter(
                |w: WorldKey| !names.contains(w),
            ),
        decreases stored@.len() - i,
    {
        proof {
            assert(keys.subrange(0, i + 1).drop_last() =~= keys.subrange(0, i as int));
            keys.subrange(0, i as int).lemma_filter_push(keys[i as int], |w: WorldKey| !names.contains(w));
            assert(keys.subrange(0, i as int).push(keys[i as int]) =~= keys.subrange(0, i + 1));
        }
        if !names_world(configured, &stored[i]) {
            let ghost before = r@;
            r.push(stored[i].duplicate());
            proof {
                assert(r@.map_values(|w: WorldIdentity| w@) =~= before.map_values(|w: WorldIdentity| w@).push(
                    keys[i as int],
                ));
            }
        }
        i = i + 1;
    }
    assert(keys.subrange(0, keys.len() as int) =~= keys);
    r
}


/// Why a frame was not written.
#[derive(Debug, Clone, Copy, PartialEq, Eq, Structural)]
pub enum FrameRefusal {
    /// The payload is empty.
    ZeroLength,
    /// The payload is longer than the class allows.
    TooLong { length: u32, max: u32 },
}

/// The five bytes that precede a frame's payload: its class and its length,
/// big-endian.
pub open spec fn frame_prefix(class: u8, length: u32) -> Seq<u8> {
    seq![
        class,
        ((length / 0x100_0000) % 256) as u8,
        ((length / 0x1_0000) % 256) as u8,
        ((length / 0x100) % 256) as u8,
        (length % 256) as u8,
    ]
}

/// The prefix of a frame with `payload` of class `class`, refused for an
/// empty payload and for one longer than `max`.
pub fn frame_header(class: u8, payload: &Vec<u8>, max: u32) -> (r: Result<Vec<u8>, FrameRefusal>)
    ensures
        payload@.len() == 0 ==> r == Err::<Vec<u8>, FrameRefusal>(FrameRefusal::ZeroLength),
        payload@.len() > 0 && payload@.len() > max ==> (r matches Err(FrameRefusal::TooLong { length, max: m })
            && length == payload@.len() as u32 && m == max),
        payload@.len() > 0 && payload@.len() <= max ==> (r matches Ok(p) && p@ == frame_prefix(
            class,
            payload@.len() as u32,
        )),
{
    let n = payload.len();
    if n == 0 {
        return Err(FrameRefusal::ZeroLength);
    }
    if n > max as usize {
        return Err(FrameRefusal::TooLong { length: n as u32, max });
    }
    let length = n as u32;
    let mut p: Vec<u8> = Vec::new();
    p.push(class);
    p.push(((length / 0x100_0000) % 256) as u8);
    p.push(((length / 0x1_0000) % 256) as u8);
    p.push(((length / 0x100) % 256) as u8);
    p.push((length % 256) as u8);
    assert(p@ =~= frame_prefix(class, length));
    Ok(p)
}

} // verus!
