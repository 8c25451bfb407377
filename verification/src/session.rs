//! Bridge session sequencing: each authenticated message carries a sequence
//! number; new sequences are handled once, repeats are acknowledged as
//! duplicates, and a gap latches the session until a full bootstrap.
use vstd::prelude::*;
use rand::RngCore;
use crate::text::{decimal, push_decimal, push_str};
use crate::wire::{Ack, AckStatus, Envelope, ProtocolError, ProtocolErrorCode, bytes_equal};

verus! {

pub const SESSION_ID_BYTES: usize = 16;

/// How a sequence number relates to what the session has accepted.
#[derive(Clone, Copy, Debug, PartialEq, Eq, Structural)]
pub enum Decision {
    New,
    Duplicate,
    Gap { expected: u64, actual: u64 },
}

/// The sequencing state of a session.
#[derive(Clone, Debug)]
pub struct SessionCursor {
    expected: u64,
    last_accepted: Option<u64>,
    latched_gap: Option<(u64, u64)>,
}

/// The content of a [`SessionCursor`]: the next expected sequence, the last
/// accepted one, and the latched gap if any.
pub struct CursorView {
    pub expected: u64,
    pub last_accepted: Option<u64>,
    pub latched_gap: Option<(u64, u64)>,
}

impl View for SessionCursor {
    type V = CursorView;

    closed spec fn view(&self) -> CursorView {
        CursorView { expected: self.expected, last_accepted: self.last_accepted, latched_gap: self.latched_gap }
    }
}

/// How a cursor in state `c` classifies `sequence`.
pub open spec fn classify(c: CursorView, sequence: u64) -> Decision {
    match c.latched_gap {
        Some((expected, _)) => Decision::Gap { expected, actual: sequence },
        None => {
            if c.last_accepted matches Some(last) && sequence <= last {
                Decision::Duplicate
            } else if sequence != c.expected {
                Decision::Gap { expected: c.expected, actual: sequence }
            } else {
                Decision::New
            }
        },
    }
}

/// The cursor after `sequence` is durably accepted.
pub open spec fn committed(c: CursorView, sequence: u64) -> CursorView {
    CursorView {
        expected: if sequence < u64::MAX { (sequence + 1) as u64 } else { u64::MAX },
        last_accepted: Some(sequence),
        latched_gap: c.latched_gap,
    }
}

/// The cursor after a gap from `expected` to `actual` is latched.
pub open spec fn latched(c: CursorView, expected: u64, actual: u64) -> CursorView {
    CursorView { latched_gap: Some((expected, actual)), ..c }
}

/// One `accept` step: the next cursor state and the decision.
pub open spec fn cursor_step(c: CursorView, sequence: u64) -> (CursorView, Decision) {
    let d = classify(c, sequence);
    match d {
        Decision::New => (committed(c, sequence), d),
        Decision::Gap { expected, actual } => (latched(c, expected, actual), d),
        Decision::Duplicate => (c, d),
    }
}

/// The states and decisions of a cursor fed `sequences` in order.
pub open spec fn cursor_run(c: CursorView, sequences: Seq<u64>) -> (CursorView, Seq<Decision>)
    decreases sequences.len(),
{
    if sequences.len() == 0 {
        (c, Seq::empty())
    } else {
        let (c1, d) = cursor_step(c, sequences[0]);
        let (c2, ds) = cursor_run(c1, sequences.drop_first());
        (c2, seq![d] + ds)
    }
}

/// The fresh cursor.
pub open spec fn fresh_cursor() -> CursorView {
    CursorView { expected: 1, last_accepted: None, latched_gap: None }
}

/// The cursor's bookkeeping is consistent: `expected` follows the last accepted sequence.
pub open spec fn cursor_consistent(c: CursorView) -> bool {
    match c.last_accepted {
        None => c.expected == 1,
        Some(last) => c.expected == (if last < u64::MAX { (last + 1) as u64 } else { u64::MAX }),
    }
}

impl SessionCursor {
    pub fn new() -> (c: SessionCursor)
        ensures
            c@ == fresh_cursor(),
    {
        SessionCursor { expected: 1, last_accepted: None, latched_gap: None }
    }

    /// Classifies `sequence` and records a new sequence or a gap.
    pub fn accept(&mut self, sequence: u64) -> (d: Decision)
        ensures
            (final(self)@, d) == cursor_step(old(self)@, sequence),
    {
        let decision = self.evaluate(sequence);
        match decision {
            Decision::New => self.commit_new(sequence),
            Decision::Gap { expected, actual } => {
                let _ = self.latch_gap(expected, actual);
            },
            Decision::Duplicate => {},
        }
        decision
    }

    pub fn evaluate(&self, sequence: u64) -> (d: Decision)
        ensures
            d == classify(self@, sequence),
    {
        if let Some((expected, _)) = self.latched_gap {
            return Decision::Gap { expected, actual: sequence };
        }
        if let Some(last) = self.last_accepted {
            if sequence <= last {
                return Decision::Duplicate;
            }
        }
        if sequence != self.expected {
            return Decision::Gap { expected: self.expected, actual: sequence };
        }
        Decision::New
    }

    pub fn commit_new(&mut self, sequence: u64)
        ensures
            final(self)@ == committed(old(self)@, sequence),
    {
        self.last_accepted = Some(sequence);
        self.expected = match sequence.checked_add(1) {
            Some(next) => next,
            None => u64::MAX,
        };
    }

    pub fn latch_gap(&mut self, expected: u64, actual: u64) -> (d: Decision)
        ensures
            final(self)@ == latched(old(self)@, expected, actual),
            d == (Decision::Gap { expected, actual }),
    {
        self.latched_gap = Some((expected, actual));
        Decision::Gap { expected, actual }
    }
}

/// Once a gap is latched, every later sequence is reported as a gap from the
/// same expected sequence, and nothing is accepted any more.
pub proof fn lemma_gap_is_sticky(c: CursorView, sequences: Seq<u64>)
    requires
        c.latched_gap is Some,
    ensures
        cursor_run(c, sequences).1.len() == sequences.len(),
        cursor_run(c, sequences).0.expected == c.expected,
        cursor_run(c, sequences).0.last_accepted == c.last_accepted,
        cursor_run(c, sequences).0.latched_gap matches Some(g) && g.0 == (c.latched_gap->0).0,
        forall|i: int| 0 <= i < sequences.len() ==> #[trigger] cursor_run(c, sequences).1[i]
            == (Decision::Gap { expected: (c.latched_gap->0).0, actual: sequences[i] }),
    decreases sequences.len(),
{
    if sequences.len() > 0 {
        let c1 = cursor_step(c, sequences[0]).0;
        lemma_gap_is_sticky(c1, sequences.drop_first());
        assert forall|i: int| 0 <= i < sequences.len() implies #[trigger] cursor_run(c, sequences).1[i]
            == (Decision::Gap { expected: (c.latched_gap->0).0, actual: sequences[i] }) by {
            if i > 0 {
                assert(sequences.drop_first()[i - 1] == sequences[i]);
            }
        }
    }
}

/// A consistent cursor stays consistent, and it accepts as new exactly the
/// successor of the last accepted sequence (1 for a fresh session); a duplicate
/// or a gap never changes what was accepted.
pub proof fn lemma_new_is_successor(c: CursorView, sequence: u64)
    requires
        cursor_consistent(c),
    ensures
        cursor_consistent(cursor_step(c, sequence).0),
        classify(c, sequence) == Decision::New ==> match c.last_accepted {
            None => sequence == 1,
            Some(last) => last < u64::MAX && sequence == last + 1,
        },
        classify(c, sequence) != Decision::New ==> cursor_step(c, sequence).0.last_accepted == c.last_accepted,
        classify(c, sequence) == Decision::Duplicate <==> (c.latched_gap is None
            && (c.last_accepted matches Some(last) && sequence <= last)),
{
}

/// How many of `ds` accepted a sequence as new.
pub open spec fn new_count(ds: Seq<Decision>) -> nat
    decreases ds.len(),
{
    if ds.len() == 0 {
        0
    } else {
        new_count(ds.drop_last()) + if ds.last() is New { 1nat } else { 0nat }
    }
}

/// The expected sequence of the first gap among `ds`, if one was reported.
pub open spec fn first_gap(ds: Seq<Decision>) -> Option<u64>
    decreases ds.len(),
{
    if ds.len() == 0 {
        None
    } else {
        match first_gap(ds.drop_last()) {
            Some(e) => Some(e),
            None => match ds.last() {
                Decision::Gap { expected, .. } => Some(expected),
                _ => None,
            },
        }
    }
}

/// The sequences of `h` that were accepted as new, in order, where `ds` are
/// the decisions taken on them.
pub open spec fn accepted_news(h: Seq<u64>, ds: Seq<Decision>) -> Seq<u64>
    decreases h.len(),
{
    if h.len() == 0 || ds.len() == 0 {
        Seq::empty()
    } else {
        let prev = accepted_news(h.drop_last(), ds.drop_last());
        if ds.last() is New { prev.push(h.last()) } else { prev }
    }
}

/// The sequences `1..=n`.
pub open spec fn first_sequences(n: nat) -> Seq<u64> {
    Seq::new(n, |i: int| (i + 1) as u64)
}

/// Feeding one more sequence to a cursor adds one step at the end of its run.
pub proof fn lemma_run_push(c: CursorView, h: Seq<u64>, s: u64)
    ensures
        cursor_run(c, h.push(s)).0 == cursor_step(cursor_run(c, h).0, s).0,
        cursor_run(c, h.push(s)).1 == cursor_run(c, h).1.push(cursor_step(cursor_run(c, h).0, s).1),
    decreases h.len(),
{
    if h.len() == 0 {
        assert(h.push(s).drop_first() =~= Seq::<u64>::empty());
        assert(seq![cursor_step(c, s).1] + Seq::<Decision>::empty() =~= Seq::<Decision>::empty().push(cursor_step(c, s).1));
        assert(cursor_run(c, h) == (c, Seq::<Decision>::empty()));
        assert(cursor_run(c, h.push(s)) == (cursor_run(cursor_step(c, s).0, Seq::<u64>::empty()).0,
            seq![cursor_step(c, s).1] + cursor_run(cursor_step(c, s).0, Seq::<u64>::empty()).1));
    } else {
        let c1 = cursor_step(c, h[0]).0;
        let d = cursor_step(c, h[0]).1;
        assert(h.push(s)[0] == h[0]);
        assert(h.push(s).drop_first() =~= h.drop_first().push(s));
        lemma_run_push(c1, h.drop_first(), s);
        let ds = cursor_run(c1, h.drop_first()).1;
        let x = cursor_step(cursor_run(c1, h.drop_first()).0, s).1;
        assert(cursor_run(c, h) == (cursor_run(c1, h.drop_first()).0, seq![d] + ds));
        assert(cursor_run(c, h.push(s)) == (cursor_run(c1, h.drop_first().push(s)).0,
            seq![d] + cursor_run(c1, h.drop_first().push(s)).1));
        assert(seq![d] + ds.push(x) =~= (seq![d] + ds).push(x));
    }
}

/// The lengths of a run's decisions, and the state a fresh cursor reaches
/// after `h`: with no gap reported it has accepted exactly `1..=L`.
proof fn lemma_history_state(h: Seq<u64>)
    ensures
        cursor_run(fresh_cursor(), h).1.len() == h.len(),
        new_count(cursor_run(fresh_cursor(), h).1) <= u64::MAX,
        first_gap(cursor_run(fresh_cursor(), h).1) is None ==> {
            let c = cursor_run(fresh_cursor(), h).0;
            let l = new_count(cursor_run(fresh_cursor(), h).1);
            &&& c.latched_gap is None
            &&& c.expected == (if l < u64::MAX { (l + 1) as u64 } else { u64::MAX })
            &&& c.last_accepted == (if l == 0 { None } else { Some(l as u64) })
            &&& accepted_news(h, cursor_run(fresh_cursor(), h).1) == first_sequences(l)
        },
        first_gap(cursor_run(fresh_cursor(), h).1) matches Some(e0) ==> (cursor_run(fresh_cursor(), h).0.latched_gap matches Some(g) && g.0 == e0),
    decreases h.len(),
{
    if h.len() == 0 {
        assert(accepted_news(h, cursor_run(fresh_cursor(), h).1) =~= first_sequences(0));
    } else {
        let p = h.drop_last();
        let s = h.last();
        assert(p.push(s) =~= h);
        lemma_history_state(p);
        lemma_run_push(fresh_cursor(), p, s);
        let (c, ds) = cursor_run(fresh_cursor(), p);
        let ds2 = cursor_run(fresh_cursor(), h).1;
        assert(ds2.drop_last() =~= ds);
        assert(ds2.last() == cursor_step(c, s).1);
        let l = new_count(ds);
        if first_gap(ds) is None && cursor_step(c, s).1 is New {
            assert(accepted_news(h, ds2) == accepted_news(p, ds).push(s));
            assert(first_sequences(l).push(s) =~= first_sequences(l + 1));
        }
    }
}

/// The law of a session's sequencing, over every history of `accept` calls on a
/// fresh cursor: once a gap was reported, every later sequence is a gap from
/// that first expected sequence; otherwise the sequences accepted so far are
/// exactly `1..=L`, and the next one is a duplicate up to `L`, new at `L + 1`
/// and a gap from `L + 1` past it.
pub proof fn lemma_cursor_history(h: Seq<u64>, s: u64)
    ensures
        first_gap(cursor_run(fresh_cursor(), h).1) matches Some(e0) ==>
            cursor_run(fresh_cursor(), h.push(s)).1.last() == (Decision::Gap { expected: e0, actual: s }),
        first_gap(cursor_run(fresh_cursor(), h).1) is None ==> {
            let l = new_count(cursor_run(fresh_cursor(), h).1);
            &&& accepted_news(h, cursor_run(fresh_cursor(), h).1) == first_sequences(l)
            &&& cursor_run(fresh_cursor(), h.push(s)).1.last() == (if l > 0 && s <= l {
                Decision::Duplicate
            } else if s == l + 1 {
                Decision::New
            } else {
                Decision::Gap { expected: (l + 1) as u64, actual: s }
            })
        },
{
    lemma_history_state(h);
    lemma_run_push(fresh_cursor(), h, s);
}

/// Why a session operation failed.
#[derive(Debug, Clone, PartialEq, Eq)]
pub enum SessionError {
    InvalidSessionId,
    HandlerFailed(String),
    HandlerPanicked(String),
}

/// The display text of a [`SessionError`].
pub open spec fn session_error_text(e: SessionError) -> Seq<char> {
    match e {
        SessionError::InvalidSessionId => "session ID must contain exactly 16 bytes"@,
        SessionError::HandlerFailed(m) => "durable handler failed: "@ + m@,
        SessionError::HandlerPanicked(m) => "durable handler panicked: "@ + m@,
    }
}

impl SessionError {
    /// The user-facing text of the error.
    pub fn display_text(&self) -> (s: String)
        ensures
            s@ == session_error_text(*self),
    {
        match self {
            SessionError::InvalidSessionId => String::from_str("session ID must contain exactly 16 bytes"),
            SessionError::HandlerFailed(m) => {
                let mut s = String::from_str("durable handler failed: ");
                push_str(&mut s, m.as_str());
                s
            },
            SessionError::HandlerPanicked(m) => {
                let mut s = String::from_str("durable handler panicked: ");
                push_str(&mut s, m.as_str());
                s
            },
        }
    }
}

/// What the session answers to one message.
#[derive(Debug, Clone, PartialEq, Eq)]
pub struct SessionOutcome {
    ack: Option<Ack>,
    protocol_error: Option<ProtocolError>,
}

impl SessionOutcome {
    pub closed spec fn spec_ack(&self) -> Option<Ack> {
        self.ack
    }

    pub closed spec fn spec_protocol_error(&self) -> Option<ProtocolError> {
        self.protocol_error
    }

    pub fn ack(&self) -> (r: Option<&Ack>)
        ensures
            match r {
                Some(a) => self.spec_ack() == Some(*a),
                None => self.spec_ack() is None,
            },
    {
        self.ack.as_ref()
    }

    pub fn protocol_error(&self) -> (r: Option<&ProtocolError>)
        ensures
            match r {
                Some(e) => self.spec_protocol_error() == Some(*e),
                None => self.spec_protocol_error() is None,
            },
    {
        self.protocol_error.as_ref()
    }
}

/// The next thing to do with a message.
#[derive(Debug)]
pub enum SessionStep {
    /// Answer the bridge with this outcome; the handler does not run.
    Respond(SessionOutcome),
    /// Run the durable handler, then call [`Session::finish`].
    RunHandler,
}

/// A fatal `InvalidMessage` report for `sequence` with text `message`.
pub open spec fn is_fatal_report(o: SessionOutcome, sequence: u64, message: Seq<char>) -> bool {
    &&& o.spec_ack() is None
    &&& o.spec_protocol_error() matches Some(e) && e.code == ProtocolErrorCode::InvalidMessage && e.fatal
        && e.offending_sequence == sequence && e.message@ == message
}

/// An acknowledgement of `sequence` with the given status and text.
pub open spec fn is_ack(o: SessionOutcome, sequence: u64, status: AckStatus, message: Seq<char>) -> bool {
    &&& o.spec_protocol_error() is None
    &&& o.spec_ack() matches Some(a) && a.acknowledged_sequence == sequence && a.status == status && a.message@ == message
}

/// The text of a sequence-gap report.
pub open spec fn gap_text(expected: u64, actual: u64) -> Seq<char> {
    "sequence gap: expected "@ + decimal(expected as nat) + ", actual "@ + decimal(actual as nat)
        + "; full bootstrap replacement required"@
}

fn fatal(sequence: u64, message: String) -> (o: SessionOutcome)
    ensures
        is_fatal_report(o, sequence, message@),
{
    SessionOutcome {
        ack: None,
        protocol_error: Some(ProtocolError {
            code: ProtocolErrorCode::InvalidMessage,
            message,
            fatal: true,
            offending_sequence: sequence,
            config_revision: 0,
        }),
    }
}

fn acknowledge(sequence: u64, status: AckStatus, message: String) -> (o: SessionOutcome)
    ensures
        is_ack(o, sequence, status, message@),
{
    SessionOutcome { ack: Some(Ack { acknowledged_sequence: sequence, status, message }), protocol_error: None }
}

/// An authenticated bridge session.
pub struct Session {
    session_id: [u8; 16],
    cursor: SessionCursor,
}

impl Session {
    pub closed spec fn spec_session_id(&self) -> Seq<u8> {
        self.session_id@
    }

    pub closed spec fn spec_cursor(&self) -> CursorView {
        self.cursor@
    }

    pub fn new(session_id: [u8; 16]) -> (s: Session)
        ensures
            s.spec_session_id() == session_id@,
            s.spec_cursor() == fresh_cursor(),
    {
        Session { session_id, cursor: SessionCursor::new() }
    }

    /// A session with a fresh random identifier.
    pub fn authenticated() -> (s: Session)
        ensures
            s.spec_session_id().len() == 16,
            is_uuid_v4(s.spec_session_id()),
            s.spec_cursor() == fresh_cursor(),
    {
        Session::new(random_session_id())
    }

    /// A session with the given identifier, which must be sixteen bytes.
    pub fn from_session_id(session_id: &[u8]) -> (r: Result<Session, SessionError>)
        ensures
            match r {
                Ok(s) => session_id@.len() == 16 && s.spec_session_id() == session_id@ && s.spec_cursor() == fresh_cursor(),
                Err(e) => session_id@.len() != 16 && e == SessionError::InvalidSessionId,
            },
    {
        if session_id.len() != SESSION_ID_BYTES {
            return Err(SessionError::InvalidSessionId);
        }
        let mut bytes = [0u8; 16];
        let mut i: usize = 0;
        while i < 16
            invariant
                session_id@.len() == 16,
                i <= 16,
                bytes@.len() == 16,
                forall|j: int| 0 <= j < i ==> bytes@[j] == session_id@[j],
            decreases 16 - i,
        {
            bytes[i] = session_id[i];
            i = i + 1;
        }
        assert(bytes@ =~= session_id@);
        Ok(Session::new(bytes))
    }

    pub fn session_id(&self) -> (r: &[u8])
        ensures
            r@ == self.spec_session_id(),
    {
        self.session_id.as_slice()
    }

    pub fn cursor_mut(&mut self) -> (c: &mut SessionCursor)
        ensures
            c@ == old(self).spec_cursor(),
            final(self).spec_session_id() == old(self).spec_session_id(),
            final(self).spec_cursor() == final(c)@,
    {
        &mut self.cursor
    }

    /// Decides what to do with an inbound message before its handler runs.
    pub fn begin(&mut self, envelope: &Envelope) -> (step: SessionStep)
        ensures
            final(self).spec_session_id() == old(self).spec_session_id(),
            envelope.session_id@ != old(self).spec_session_id() ==> {
                &&& step matches SessionStep::Respond(o) && is_fatal_report(o, envelope.sequence,
                    "authenticated session ID does not match; full bootstrap replacement required"@)
                &&& final(self).spec_cursor() == old(self).spec_cursor()
            },
            envelope.session_id@ == old(self).spec_session_id() ==> match classify(old(self).spec_cursor(), envelope.sequence) {
                Decision::Duplicate => {
                    &&& step matches SessionStep::Respond(o) && is_ack(o, envelope.sequence, AckStatus::Duplicate,
                        "duplicate sequence already durably applied"@)
                    &&& final(self).spec_cursor() == old(self).spec_cursor()
                },
                Decision::Gap { expected, actual } => {
                    &&& step matches SessionStep::Respond(o) && is_fatal_report(o, actual, gap_text(expected, actual))
                    &&& final(self).spec_cursor() == latched(old(self).spec_cursor(), expected, actual)
                },
                Decision::New => {
                    &&& step is RunHandler
                    &&& final(self).spec_cursor() == old(self).spec_cursor()
                },
            },
    {
        if !bytes_equal(envelope.session_id.as_slice(), self.session_id.as_slice()) {
            return SessionStep::Respond(fatal(
                envelope.sequence,
                String::from_str("authenticated session ID does not match; full bootstrap replacement required"),
            ));
        }
        match self.cursor.evaluate(envelope.sequence) {
            Decision::Duplicate => SessionStep::Respond(acknowledge(
                envelope.sequence,
                AckStatus::Duplicate,
                String::from_str("duplicate sequence already durably applied"),
            )),
            Decision::Gap { expected, actual } => {
                let _ = self.cursor.latch_gap(expected, actual);
                let mut message = String::from_str("sequence gap: expected ");
                push_decimal(&mut message, expected);
                push_str(&mut message, ", actual ");
                push_decimal(&mut message, actual);
                push_str(&mut message, "; full bootstrap replacement required");
                SessionStep::Respond(fatal(actual, message))
            },
            Decision::New => SessionStep::RunHandler,
        }
    }

    /// Completes a message whose handler ran: a successful handler commits the
    /// sequence and is acknowledged; a failed one is reported and commits nothing.
    pub fn finish(&mut self, sequence: u64, handled: Result<(), SessionError>) -> (r: Result<SessionOutcome, SessionError>)
        requires
            classify(old(self).spec_cursor(), sequence) == Decision::New,
        ensures
            final(self).spec_session_id() == old(self).spec_session_id(),
            match handled {
                Ok(()) => {
                    &&& r matches Ok(o) && is_ack(o, sequence, AckStatus::Accepted, "durably applied"@)
                    &&& final(self).spec_cursor() == committed(old(self).spec_cursor(), sequence)
                },
                Err(e) => r == Err::<SessionOutcome, SessionError>(e) && final(self).spec_cursor() == old(self).spec_cursor(),
            },
    {
        match handled {
            Ok(()) => {
                self.cursor.commit_new(sequence);
                Ok(acknowledge(sequence, AckStatus::Accepted, String::from_str("durably applied")))
            },
            Err(error) => Err(error),
        }
    }
}

/// Sixteen bytes laid out as a version-4 UUID with the RFC 4122 variant.
pub open spec fn is_uuid_v4(id: Seq<u8>) -> bool {
    id.len() == 16 && id[6] & 0xf0 == 0x40 && id[8] & 0xc0 == 0x80
}

/// Stamps the version and variant bits of a version-4 UUID onto random bytes.
pub fn stamp_uuid_v4(random: [u8; 16]) -> (id: [u8; 16])
    ensures
        id@ == random@.update(6, (random@[6] & 0x0f) | 0x40).update(8, (random@[8] & 0x3f) | 0x80),
        is_uuid_v4(id@),
{
    let mut id = random;
    let b6 = id[6];
    let b8 = id[8];
    id[6] = (b6 & 0x0f) | 0x40;
    id[8] = (b8 & 0x3f) | 0x80;
    assert(((b6 & 0x0f) | 0x40) & 0xf0 == 0x40) by (bit_vector);
    assert(((b8 & 0x3f) | 0x80) & 0xc0 == 0x80) by (bit_vector);
    assert(id@ =~= random@.update(6, (random@[6] & 0x0f) | 0x40).update(8, (random@[8] & 0x3f) | 0x80));
    id
}

/// Fills sixteen bytes from the thread-local generator (`rand::rng().fill_bytes`).
///
/// The bytes are random: nothing is claimed of their values.
#[verifier::external_body]
fn random_bytes() -> [u8; 16] {
    let mut bytes = [0u8; 16];
    rand::rng().fill_bytes(&mut bytes);
    bytes
}

/// A fresh random session identifier in version-4 UUID layout.
pub fn random_session_id() -> (id: [u8; 16])
    ensures
        is_uuid_v4(id@),
{
    stamp_uuid_v4(random_bytes())
}

} // verus!
