//! Control requests from the bridge: health, reload and per-world render
//! commands, answered against the accepted world table.
use vstd::prelude::*;
use crate::wire::{ChunkCoordinate, WorldIdentity, WorldKey, opt_world};

verus! {

/// The control operations the bridge can request.
#[derive(Debug, Clone, Copy, PartialEq, Eq, Structural)]
pub enum ControlKind {
    Unspecified,
    Health,
    Reload,
    FullRender,
    RadiusRender,
    CancelRender,
    PauseRenders,
    ResetMap,
}

/// The result codes of a control request.
#[derive(Debug, Clone, Copy, PartialEq, Eq, Structural)]
pub enum BackendResultCode {
    Unspecified,
    Healthy,
    BackendUnavailable,
    InvalidRequest,
    UnknownWorld,
    FullRenderStarted,
    RadiusRenderStarted,
    RenderCancelled,
    RenderInProgress,
    RenderNotInProgress,
    RendersPaused,
    RendersResumed,
    MapReset,
    Failed,
}

/// A control request. `kind` is `None` when the wire code names no known operation.
#[derive(Debug, Clone, PartialEq, Eq)]
pub struct ControlRequest {
    pub kind: Option<ControlKind>,
    pub world: Option<WorldIdentity>,
    pub center_x: i32,
    pub center_z: i32,
    pub radius: u32,
    pub coordinates: Vec<ChunkCoordinate>,
}

/// A named value substituted into the bridge's result message.
#[derive(Debug, Clone, PartialEq, Eq)]
pub struct BackendSubstitution {
    pub key: String,
    pub world: WorldIdentity,
}

/// The answer to a control request.
#[derive(Debug, Clone, PartialEq, Eq)]
pub struct ControlResult {
    pub code: BackendResultCode,
    pub substitutions: Vec<BackendSubstitution>,
    pub rendered_chunks: u64,
}

/// Whether `r` carries `code`, no rendered chunks, and a `world` substitution exactly when `world` is given.
pub open spec fn is_result(r: ControlResult, code: BackendResultCode, world: Option<WorldKey>) -> bool {
    &&& r.code == code
    &&& r.rendered_chunks == 0
    &&& match world {
        Some(w) => r.substitutions@.len() == 1 && r.substitutions@[0].key@ == "world"@ && r.substitutions@[0].world@ == w,
        None => r.substitutions@.len() == 0,
    }
}

/// Builds the result for `code`, naming `world` when given.
pub fn control_response(code: BackendResultCode, world: Option<&WorldIdentity>) -> (r: ControlResult)
    ensures
        is_result(r, code, match world { Some(w) => Some(w@), None => None }),
{
    let mut substitutions: Vec<BackendSubstitution> = Vec::new();
    if let Some(w) = world {
        substitutions.push(BackendSubstitution { key: String::from_str("world"), world: w.duplicate() });
    }
    ControlResult { code, substitutions, rendered_chunks: 0 }
}

/// The answer that [`ControlState::handle`] gives.
pub open spec fn handle_spec(in_config: bool, worlds: Set<WorldKey>, request: ControlRequest) -> (BackendResultCode, Option<WorldKey>) {
    match request.kind {
        None => (BackendResultCode::InvalidRequest, None),
        Some(ControlKind::Health) => (if in_config { BackendResultCode::Healthy } else { BackendResultCode::BackendUnavailable }, None),
        Some(ControlKind::Reload) => (BackendResultCode::BackendUnavailable, None),
        Some(kind) => match request.world {
            None => (BackendResultCode::InvalidRequest, None),
            Some(w) => if !worlds.contains(w@) {
                (BackendResultCode::UnknownWorld, Some(w@))
            } else if kind == ControlKind::Unspecified {
                (BackendResultCode::InvalidRequest, Some(w@))
            } else {
                (BackendResultCode::BackendUnavailable, Some(w@))
            },
        },
    }
}

/// Whether the control plane has an accepted configuration and which worlds it names.
pub struct ControlState {
    in_config: bool,
    worlds: Vec<WorldIdentity>,
}

impl ControlState {
    /// The accepted world identities.
    pub closed spec fn spec_worlds(&self) -> Set<WorldKey> {
        self.worlds@.map_values(|w: WorldIdentity| w@).to_set()
    }

    pub closed spec fn spec_in_config(&self) -> bool {
        self.in_config
    }

    /// Each world is held once.
    pub closed spec fn wf(&self) -> bool {
        self.worlds@.map_values(|w: WorldIdentity| w@).no_duplicates()
    }

    pub fn new() -> (s: ControlState)
        ensures
            s.wf(),
            !s.spec_in_config(),
            s.spec_worlds() == Set::<WorldKey>::empty(),
    {
        let s = ControlState { in_config: false, worlds: Vec::new() };
        assert(s.spec_worlds() =~= Set::<WorldKey>::empty());
        s
    }

    pub fn is_in_config(&self) -> (r: bool)
        ensures
            r == self.spec_in_config(),
    {
        self.in_config
    }

    fn position(worlds: &Vec<WorldIdentity>, w: &WorldIdentity) -> (r: Option<usize>)
        ensures
            match r {
                Some(i) => i < worlds@.len() && worlds@[i as int]@ == w@,
                None => !worlds@.map_values(|x: WorldIdentity| x@).contains(w@),
            },
    {
        let mut i: usize = 0;
        while i < worlds.len()
            invariant
                i <= worlds@.len(),
                forall|j: int| 0 <= j < i ==> worlds@[j]@ != w@,
            decreases worlds@.len() - i,
        {
            if worlds[i].same(w) {
                return Some(i);
            }
            i = i + 1;
        }
        proof {
            if worlds@.map_values(|x: WorldIdentity| x@).contains(w@) {
                let m = worlds@.map_values(|x: WorldIdentity| x@);
                let k = choose|k: int| 0 <= k < m.len() && #[trigger] m[k] == w@;
                assert(worlds@[k]@ == w@);
            }
        }
        None
    }

    fn knows(&self, w: &WorldIdentity) -> (r: bool)
        ensures
            r == self.spec_worlds().contains(w@),
    {
        let found = Self::position(&self.worlds, w);
        proof {
            if let Some(i) = found {
                assert(self.worlds@.map_values(|x: WorldIdentity| x@)[i as int] == w@);
            }
        }
        found.is_some()
    }

    /// Replaces the world table with the given identities and marks the
    /// configuration accepted.
    pub fn replace_worlds(&mut self, identities: Vec<WorldIdentity>)
        ensures
            final(self).wf(),
            final(self).spec_in_config(),
            final(self).spec_worlds() == identities@.map_values(|w: WorldIdentity| w@).to_set(),
    {
        let mut next: Vec<WorldIdentity> = Vec::new();
        let mut i: usize = 0;
        while i < identities.len()
            invariant
                i <= identities@.len(),
                next@.map_values(|w: WorldIdentity| w@).no_duplicates(),
                next@.map_values(|w: WorldIdentity| w@).to_set()
                    == identities@.subrange(0, i as int).map_values(|w: WorldIdentity| w@).to_set(),
            decreases identities@.len() - i,
        {
            let ghost before = next@.map_values(|w: WorldIdentity| w@);
            let ghost src = identities@.subrange(0, i as int).map_values(|w: WorldIdentity| w@);
            let ghost src2 = identities@.subrange(0, i + 1).map_values(|w: WorldIdentity| w@);
            proof {
                assert(src2 =~= src.push(identities@[i as int]@));
                src.lemma_push_to_set_commute(identities@[i as int]@);
            }
            let found = Self::position(&next, &identities[i]);
            if found.is_none() {
                next.push(identities[i].duplicate());
                proof {
                    assert(next@.map_values(|w: WorldIdentity| w@) =~= before.push(identities@[i as int]@));
                    before.lemma_push_to_set_commute(identities@[i as int]@);
                }
            } else {
                proof {
                    let j = found->0;
                    assert(before[j as int] == identities@[i as int]@);
                    assert(before.contains(identities@[i as int]@));
                    assert(before.to_set().contains(identities@[i as int]@));
                    assert(before.to_set().insert(identities@[i as int]@) =~= before.to_set());
                }
            }
            i = i + 1;
        }
        proof {
            assert(identities@.subrange(0, identities@.len() as int) =~= identities@);
        }
        self.worlds = next;
        self.in_config = true;
    }

    /// How many distinct worlds are accepted.
    pub fn world_count(&self) -> (n: usize)
        requires
            self.wf(),
        ensures
            n == self.spec_worlds().len(),
    {
        proof {
            self.worlds@.map_values(|w: WorldIdentity| w@).unique_seq_to_set();
        }
        self.worlds.len()
    }

    /// Answers a control request from the world table alone; no render state
    /// is touched here.
    pub fn handle(&mut self, request: &ControlRequest) -> (r: ControlResult)
        ensures
            final(self).spec_in_config() == old(self).spec_in_config(),
            final(self).spec_worlds() == old(self).spec_worlds(),
            final(self).wf() == old(self).wf(),
            is_result(r, handle_spec(old(self).spec_in_config(), old(self).spec_worlds(), *request).0,
                handle_spec(old(self).spec_in_config(), old(self).spec_worlds(), *request).1),
    {
        let kind = match request.kind {
            Some(kind) => kind,
            None => { return control_response(BackendResultCode::InvalidRequest, None); },
        };
        if kind == ControlKind::Health {
            return control_response(
                if self.in_config { BackendResultCode::Healthy } else { BackendResultCode::BackendUnavailable },
                None,
            );
        }
        if kind == ControlKind::Reload {
            return control_response(BackendResultCode::BackendUnavailable, None);
        }
        let identity = match &request.world {
            Some(w) => w,
            None => { return control_response(BackendResultCode::InvalidRequest, None); },
        };
        if !self.knows(identity) {
            return control_response(BackendResultCode::UnknownWorld, Some(identity));
        }
        match kind {
            ControlKind::FullRender | ControlKind::RadiusRender | ControlKind::CancelRender
            | ControlKind::PauseRenders | ControlKind::ResetMap => control_response(BackendResultCode::BackendUnavailable, Some(identity)),
            ControlKind::Health | ControlKind::Reload | ControlKind::Unspecified => control_response(BackendResultCode::InvalidRequest, Some(identity)),
        }
    }
}

impl Default for ControlState {
    fn default() -> (s: ControlState)
        ensures
            s.wf(),
            !s.spec_in_config(),
            s.spec_worlds() == Set::<WorldKey>::empty(),
    {
        ControlState::new()
    }
}

/// Answering a control request never changes which worlds are accepted, and a
/// world replaced by a new table is no longer recognised unless the new table
/// names it again.
pub proof fn lemma_replacement_forgets_old_worlds(identities: Seq<WorldIdentity>, world: WorldKey)
    ensures
        identities.map_values(|w: WorldIdentity| w@).to_set().contains(world)
            <==> exists|i: int| 0 <= i < identities.len() && #[trigger] identities[i]@ == world,
{
    let m = identities.map_values(|w: WorldIdentity| w@);
    if m.to_set().contains(world) {
        let k = choose|k: int| 0 <= k < m.len() && #[trigger] m[k] == world;
        assert(identities[k]@ == world);
    }
    if exists|i: int| 0 <= i < identities.len() && #[trigger] identities[i]@ == world {
        let k = choose|k: int| 0 <= k < identities.len() && #[trigger] identities[k]@ == world;
        assert(m[k] == world);
        assert(m.contains(world));
    }
}

/// Whether the configuration is accepted after one call, from `accepted`
/// before it: `replace_worlds` (`replaced`) accepts it, and `handle` keeps
/// it as it was.
pub open spec fn accepted_after_call(accepted: bool, replaced: bool) -> bool {
    replaced || accepted
}

/// Whether the configuration is accepted after the calls `calls`, in order
/// (`true` for `replace_worlds`, `false` for `handle`), from `accepted`.
pub open spec fn accepted_after(accepted: bool, calls: Seq<bool>) -> bool
    decreases calls.len(),
{
    if calls.len() == 0 {
        accepted
    } else {
        accepted_after_call(accepted_after(accepted, calls.drop_last()), calls.last())
    }
}

/// From a fresh control state, the configuration counts as accepted exactly
/// once some table of worlds was applied (an empty one too), and it never
/// stops counting as accepted: each `replace_worlds` sets it and each
/// `handle` keeps it, as their contracts state.
pub proof fn lemma_accepted_once_replaced(calls: Seq<bool>, more: Seq<bool>)
    ensures
        accepted_after(false, calls) == calls.contains(true),
        accepted_after(false, calls) ==> accepted_after(false, calls + more),
    decreases calls.len() + more.len(),
{
    if calls.len() > 0 {
        lemma_accepted_once_replaced(calls.drop_last(), Seq::empty());
        if calls.drop_last().contains(true) {
            let j = choose|j: int| 0 <= j < calls.drop_last().len() && calls.drop_last()[j] == true;
            assert(calls[j] == true);
        }
        if calls.contains(true) && !calls.last() {
            let j = choose|j: int| 0 <= j < calls.len() && calls[j] == true;
            assert(j < calls.len() - 1);
            assert(calls.drop_last()[j] == true);
        }
        if calls.last() {
            assert(calls[calls.len() - 1] == true);
        }
    }
    if more.len() > 0 {
        lemma_accepted_once_replaced(calls, more.drop_last());
        assert((calls + more).drop_last() =~= calls + more.drop_last());
    }
}

} // verus!
