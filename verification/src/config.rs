//! Validation and atomic activation of the bridge's configuration replacement.
//!
//! Settings that the protocol carries as floating-point numbers reach this
//! module as the verdicts the validation needs (a ratio within `[0, 1]`, a
//! radius that is zero or positive and finite); the transport computes them.
use vstd::prelude::*;
use crate::wire::{WorldIdentity, WorldKey, opt_world};
use crate::text::push_str;

verus! {

#[derive(Clone, Debug, PartialEq)]
pub struct GlobalSettings {
    pub http_port: u32,
    pub http_enabled: bool,
    pub compress_images: bool,
    /// The compression ratio is finite and within `[0, 1]`.
    pub compression_ratio_in_range: bool,
}

#[derive(Clone, Debug, PartialEq, Default)]
pub struct AdvancedSettings {}

#[derive(Clone, Debug, PartialEq)]
pub struct LocaleSettings {
    pub language: String,
}

#[derive(Clone, Debug, PartialEq)]
pub struct RenderSettings {
    pub progress_logging_interval_seconds: u32,
    pub background_interval_seconds: u32,
    pub background_max_chunks_per_interval: u32,
    pub background_max_threads: i32,
    pub background_enabled: bool,
}

#[derive(Clone, Debug, PartialEq)]
pub struct UiSettings {
    pub sidebar_pinned: String,
}

#[derive(Clone, Copy, Debug, PartialEq, Eq, Structural)]
pub enum VisibilityLimitKind {
    Unspecified,
    WorldBorder,
    Circle,
    Rectangle,
    Polygon,
}

#[derive(Clone, Copy, Debug, PartialEq, Eq, Structural)]
pub struct Point {
    pub x: i32,
    pub z: i32,
}

/// A visibility limit. `kind` is `None` when the wire code names no known kind.
#[derive(Clone, Debug, PartialEq)]
pub struct VisibilityLimit {
    pub kind: Option<VisibilityLimitKind>,
    pub points: Vec<Point>,
    /// The radius is exactly zero.
    pub radius_is_zero: bool,
    /// The radius is finite and greater than zero.
    pub radius_is_positive: bool,
}

#[derive(Clone, Debug, PartialEq)]
pub struct WorldSettings {
    pub map_biomes_blend: u32,
    pub zoom_max: i32,
    pub zoom_default: i32,
    pub zoom_extra: i32,
    pub max_render_threads: i32,
    pub background_render_max_threads: i32,
    pub background_render_interval_seconds: u32,
    pub background_render_max_chunks_per_interval: u32,
    pub background_render_enabled: bool,
    pub player_tracker_update_interval: u32,
    pub marker_api_update_interval_seconds: u32,
    pub visibility_limits: Vec<VisibilityLimit>,
}

#[derive(Clone, Debug, PartialEq)]
pub struct WorldConfig {
    pub identity: Option<WorldIdentity>,
    pub settings: Option<WorldSettings>,
}

/// A complete configuration replacement from the bridge.
#[derive(Clone, Debug, PartialEq)]
pub struct ConfigReplace {
    pub revision: u64,
    pub global: Option<GlobalSettings>,
    pub advanced: Option<AdvancedSettings>,
    pub world: Option<WorldSettings>,
    pub locale: Option<LocaleSettings>,
    pub render: Option<RenderSettings>,
    pub ui: Option<UiSettings>,
    pub worlds: Vec<WorldConfig>,
    pub player_privacy_enabled: Option<bool>,
    pub event_capture_enabled: Option<bool>,
}

/// The limits the backend imposes on the bridge for an accepted configuration.
#[derive(Clone, Copy, Debug, PartialEq, Eq)]
pub struct BridgePolicyReplace {
    pub revision: u64,
    pub max_control_frame_bytes: u32,
    pub max_snapshot_frame_bytes: u32,
    pub max_uncompressed_snapshot_bytes: u32,
    pub max_pending_dirty_chunks: u32,
    pub snapshot_credits: u32,
    pub player_privacy_enabled: bool,
    pub event_capture_enabled: bool,
}

/// The configuration in force.
#[derive(Clone, Debug, PartialEq)]
pub struct ActiveConfig {
    pub revision: u64,
    pub config: ConfigReplace,
}

#[derive(Debug, Clone, Copy, PartialEq, Eq)]
pub enum ConfigError {
    MissingGroup(&'static str),
    MissingWorldIdentity,
    DuplicateWorldIdentity,
    InvalidRevision,
    InvalidBounds(&'static str),
    InvalidValue(&'static str),
    InvalidGeometry(&'static str),
}

/// The display text of a [`ConfigError`].
pub open spec fn config_error_text(e: ConfigError) -> Seq<char> {
    match e {
        ConfigError::MissingGroup(name) => name@ + " settings are required"@,
        ConfigError::MissingWorldIdentity => "every world config requires an identity"@,
        ConfigError::DuplicateWorldIdentity => "world identities must be unique"@,
        ConfigError::InvalidRevision => "config revision must be positive"@,
        ConfigError::InvalidBounds(name) => "invalid bounds for "@ + name@,
        ConfigError::InvalidValue(name) => "invalid value for "@ + name@,
        ConfigError::InvalidGeometry(name) => "invalid visibility geometry for "@ + name@,
    }
}

impl ConfigError {
    /// The user-facing text of the error.
    pub fn display_text(&self) -> (s: String)
        ensures
            s@ == config_error_text(*self),
    {
        match self {
            ConfigError::MissingGroup(name) => {
                let mut s = String::from_str(name);
                push_str(&mut s, " settings are required");
                s
            },
            ConfigError::MissingWorldIdentity => String::from_str("every world config requires an identity"),
            ConfigError::DuplicateWorldIdentity => String::from_str("world identities must be unique"),
            ConfigError::InvalidRevision => String::from_str("config revision must be positive"),
            ConfigError::InvalidBounds(name) => {
                let mut s = String::from_str("invalid bounds for ");
                push_str(&mut s, name);
                s
            },
            ConfigError::InvalidValue(name) => {
                let mut s = String::from_str("invalid value for ");
                push_str(&mut s, name);
                s
            },
            ConfigError::InvalidGeometry(name) => {
                let mut s = String::from_str("invalid visibility geometry for ");
                push_str(&mut s, name);
                s
            },
        }
    }
}

// ---------------------------------------------------------------------------
// Specifications
// ---------------------------------------------------------------------------

pub open spec fn visibility_verdict(limit: VisibilityLimit) -> Result<(), ConfigError> {
    match limit.kind {
        None => Err(ConfigError::InvalidValue("visibility kind")),
        Some(VisibilityLimitKind::WorldBorder) =>
            if limit.points@.len() != 0 || !limit.radius_is_zero { Err(ConfigError::InvalidGeometry("world_border")) } else { Ok(()) },
        Some(VisibilityLimitKind::Circle) =>
            if limit.points@.len() != 0 || !limit.radius_is_positive { Err(ConfigError::InvalidGeometry("circle")) } else { Ok(()) },
        Some(VisibilityLimitKind::Rectangle) =>
            if limit.points@.len() != 2 || limit.points@[0].x >= limit.points@[1].x || limit.points@[0].z >= limit.points@[1].z {
                Err(ConfigError::InvalidGeometry("rectangle"))
            } else {
                Ok(())
            },
        Some(VisibilityLimitKind::Polygon) =>
            if limit.points@.len() < 3 { Err(ConfigError::InvalidGeometry("polygon")) } else { Ok(()) },
        Some(VisibilityLimitKind::Unspecified) => Err(ConfigError::InvalidValue("visibility kind")),
    }
}

/// The first failing verdict among `limits`, in order.
pub open spec fn limits_verdict(limits: Seq<VisibilityLimit>) -> Result<(), ConfigError>
    decreases limits.len(),
{
    if limits.len() == 0 {
        Ok(())
    } else {
        match limits_verdict(limits.drop_last()) {
            Err(e) => Err(e),
            Ok(()) => visibility_verdict(limits.last()),
        }
    }
}

pub open spec fn world_settings_verdict(s: WorldSettings) -> Result<(), ConfigError> {
    if s.map_biomes_blend > 15 {
        Err(ConfigError::InvalidBounds("map_biomes_blend"))
    } else if s.zoom_max < 0 || s.zoom_default < 0 || s.zoom_extra < 0 || s.zoom_default > s.zoom_max {
        Err(ConfigError::InvalidBounds("zoom"))
    } else if s.max_render_threads < -1 || s.background_render_max_threads < -1 {
        Err(ConfigError::InvalidBounds("render threads"))
    } else if s.background_render_interval_seconds == 0 || s.background_render_max_chunks_per_interval == 0
        || s.player_tracker_update_interval == 0 || s.marker_api_update_interval_seconds == 0 {
        Err(ConfigError::InvalidBounds("interval"))
    } else {
        limits_verdict(s.visibility_limits@)
    }
}

pub open spec fn world_verdict(w: WorldConfig) -> Result<(), ConfigError> {
    match w.identity {
        None => Err(ConfigError::MissingWorldIdentity),
        Some(id) => if id.epoch == 0 || id.namespace@.len() == 0 || id.value@.len() == 0 {
            Err(ConfigError::InvalidValue("world identity"))
        } else {
            match w.settings {
                None => Err(ConfigError::MissingGroup("world settings")),
                Some(s) => world_settings_verdict(s),
            }
        },
    }
}

/// The first failure among the worlds, in order: an invalid world, or an
/// identity that an earlier world already has.
pub open spec fn worlds_verdict(ws: Seq<WorldConfig>) -> Result<(), ConfigError>
    decreases ws.len(),
{
    if ws.len() == 0 {
        Ok(())
    } else {
        match worlds_verdict(ws.drop_last()) {
            Err(e) => Err(e),
            Ok(()) => match world_verdict(ws.last()) {
                Err(e) => Err(e),
                Ok(()) => if exists|j: int| 0 <= j < ws.len() - 1 && opt_world(#[trigger] ws[j].identity) == opt_world(ws.last().identity) {
                    Err(ConfigError::DuplicateWorldIdentity)
                } else {
                    Ok(())
                },
            },
        }
    }
}

/// Why a configuration replacement is refused; `Ok` when it is accepted.
pub open spec fn config_verdict(c: ConfigReplace) -> Result<(), ConfigError> {
    if c.revision == 0 {
        Err(ConfigError::InvalidRevision)
    } else if c.global is None {
        Err(ConfigError::MissingGroup("global"))
    } else if c.advanced is None {
        Err(ConfigError::MissingGroup("advanced"))
    } else if c.world is None {
        Err(ConfigError::MissingGroup("world"))
    } else if c.locale is None {
        Err(ConfigError::MissingGroup("locale"))
    } else if c.render is None {
        Err(ConfigError::MissingGroup("render"))
    } else if c.ui is None {
        Err(ConfigError::MissingGroup("ui"))
    } else if c.player_privacy_enabled is None {
        Err(ConfigError::InvalidValue("player_privacy_enabled"))
    } else if c.event_capture_enabled is None {
        Err(ConfigError::InvalidValue("event_capture_enabled"))
    } else if c.global->0.http_port == 0 || c.global->0.http_port > 65_535 {
        Err(ConfigError::InvalidBounds("http_port"))
    } else if !c.global->0.compression_ratio_in_range {
        Err(ConfigError::InvalidBounds("compression_ratio"))
    } else if world_settings_verdict(c.world->0) is Err {
        world_settings_verdict(c.world->0)
    } else if c.render->0.progress_logging_interval_seconds == 0 || c.render->0.background_interval_seconds == 0 {
        Err(ConfigError::InvalidBounds("render interval"))
    } else if c.render->0.background_max_chunks_per_interval == 0 || c.render->0.background_max_threads < -1 {
        Err(ConfigError::InvalidBounds("render background"))
    } else if c.ui->0.sidebar_pinned@.len() == 0 {
        Err(ConfigError::InvalidValue("sidebar_pinned"))
    } else if worlds_verdict(c.worlds@) is Err {
        worlds_verdict(c.worlds@)
    } else if c.worlds@.len() == 0 {
        Err(ConfigError::InvalidValue("worlds"))
    } else {
        Ok(())
    }
}

/// The bridge policy granted for an accepted configuration.
pub open spec fn policy_for(c: ConfigReplace) -> BridgePolicyReplace {
    BridgePolicyReplace {
        revision: c.revision,
        max_control_frame_bytes: 1048576,
        max_snapshot_frame_bytes: 16777216,
        max_uncompressed_snapshot_bytes: 67108864,
        max_pending_dirty_chunks: 65_536,
        snapshot_credits: 64,
        player_privacy_enabled: c.player_privacy_enabled->0,
        event_capture_enabled: c.event_capture_enabled->0,
    }
}

// ---------------------------------------------------------------------------
// Validation
// ---------------------------------------------------------------------------

fn validate_visibility(limit: &VisibilityLimit) -> (r: Result<(), ConfigError>)
    ensures
        r == visibility_verdict(*limit),
{
    let kind = match limit.kind {
        Some(kind) => kind,
        None => { return Err(ConfigError::InvalidValue("visibility kind")); },
    };
    match kind {
        VisibilityLimitKind::WorldBorder => {
            if limit.points.len() != 0 || !limit.radius_is_zero {
                return Err(ConfigError::InvalidGeometry("world_border"));
            }
        },
        VisibilityLimitKind::Circle => {
            if limit.points.len() != 0 || !limit.radius_is_positive {
                return Err(ConfigError::InvalidGeometry("circle"));
            }
        },
        VisibilityLimitKind::Rectangle => {
            if limit.points.len() != 2 {
                return Err(ConfigError::InvalidGeometry("rectangle"));
            }
            let min = limit.points[0];
            let max = limit.points[1];
            if min.x >= max.x || min.z >= max.z {
                return Err(ConfigError::InvalidGeometry("rectangle"));
            }
        },
        VisibilityLimitKind::Polygon => {
            if limit.points.len() < 3 {
                return Err(ConfigError::InvalidGeometry("polygon"));
            }
        },
        VisibilityLimitKind::Unspecified => { return Err(ConfigError::InvalidValue("visibility kind")); },
    }
    Ok(())
}

#[verifier::loop_isolation(false)]
fn validate_world_settings(settings: &WorldSettings) -> (r: Result<(), ConfigError>)
    ensures
        r == world_settings_verdict(*settings),
{
    if settings.map_biomes_blend > 15 {
        return Err(ConfigError::InvalidBounds("map_biomes_blend"));
    }
    if settings.zoom_max < 0 || settings.zoom_default < 0 || settings.zoom_extra < 0 || settings.zoom_default > settings.zoom_max {
        return Err(ConfigError::InvalidBounds("zoom"));
    }
    if settings.max_render_threads < -1 || settings.background_render_max_threads < -1 {
        return Err(ConfigError::InvalidBounds("render threads"));
    }
    if settings.background_render_interval_seconds == 0 || settings.background_render_max_chunks_per_interval == 0
        || settings.player_tracker_update_interval == 0 || settings.marker_api_update_interval_seconds == 0 {
        return Err(ConfigError::InvalidBounds("interval"));
    }
    let limits = &settings.visibility_limits;
    let mut i: usize = 0;
    while i < limits.len()
        invariant
            i <= limits@.len(),
            limits_verdict(limits@.subrange(0, i as int)) is Ok,
        decreases limits@.len() - i,
    {
        proof {
            assert(limits@.subrange(0, i + 1).drop_last() =~= limits@.subrange(0, i as int));
        }
        if let Err(e) = validate_visibility(&limits[i]) {
            proof {
                assert(limits@.subrange(0, i + 1).last() == limits@[i as int]);
                assert(limits_verdict(limits@.subrange(0, i + 1)) == Err::<(), ConfigError>(e));
                lemma_first_failure_stays(limits@, i as int + 1);
            }
            return Err(e);
        }
        i = i + 1;
    }
    assert(limits@.subrange(0, limits@.len() as int) =~= limits@);
    Ok(())
}

/// Once a prefix of the limits fails, the whole list fails with the same error.
proof fn lemma_first_failure_stays(limits: Seq<VisibilityLimit>, k: int)
    requires
        0 <= k <= limits.len(),
        limits_verdict(limits.subrange(0, k)) is Err,
    ensures
        limits_verdict(limits) == limits_verdict(limits.subrange(0, k)),
    decreases limits.len() - k,
{
    if k < limits.len() {
        assert(limits.subrange(0, k + 1).drop_last() =~= limits.subrange(0, k));
        lemma_first_failure_stays(limits, k + 1);
    } else {
        assert(limits.subrange(0, k) =~= limits);
    }
}

proof fn lemma_first_world_failure_stays(ws: Seq<WorldConfig>, k: int)
    requires
        0 <= k <= ws.len(),
        worlds_verdict(ws.subrange(0, k)) is Err,
    ensures
        worlds_verdict(ws) == worlds_verdict(ws.subrange(0, k)),
    decreases ws.len() - k,
{
    if k < ws.len() {
        assert(ws.subrange(0, k + 1).drop_last() =~= ws.subrange(0, k));
        lemma_first_world_failure_stays(ws, k + 1);
    } else {
        assert(ws.subrange(0, k) =~= ws);
    }
}

fn validate_world(world: &WorldConfig) -> (r: Result<(), ConfigError>)
    ensures
        r == world_verdict(*world),
{
    let identity = match &world.identity {
        Some(identity) => identity,
        None => { return Err(ConfigError::MissingWorldIdentity); },
    };
    if identity.namespace.as_str().is_empty() || identity.value.as_str().is_empty() || identity.epoch == 0 {
        return Err(ConfigError::InvalidValue("world identity"));
    }
    let settings = match &world.settings {
        Some(settings) => settings,
        None => { return Err(ConfigError::MissingGroup("world settings")); },
    };
    validate_world_settings(settings)
}

fn seen_before(seen: &Vec<WorldIdentity>, identity: &WorldIdentity) -> (r: bool)
    ensures
        r == exists|j: int| 0 <= j < seen@.len() && (#[trigger] seen@[j])@ == identity@,
{
    let mut i: usize = 0;
    while i < seen.len()
        invariant
            i <= seen@.len(),
            forall|j: int| 0 <= j < i ==> (#[trigger] seen@[j])@ != identity@,
        decreases seen@.len() - i,
    {
        if seen[i].same(identity) {
            return true;
        }
        i = i + 1;
    }
    false
}

/// Validates a configuration replacement and derives the bridge policy for it.
#[verifier::loop_isolation(false)]
pub fn validate_and_stage(candidate: ConfigReplace) -> (r: Result<(ActiveConfig, BridgePolicyReplace), ConfigError>)
    ensures
        match r {
            Ok((active, policy)) => config_verdict(candidate) is Ok && active.revision == candidate.revision
                && active.config == candidate && policy == policy_for(candidate),
            Err(e) => config_verdict(candidate) == Err::<(), ConfigError>(e),
        },
{
    if candidate.revision == 0 {
        return Err(ConfigError::InvalidRevision);
    }
    let global = match &candidate.global {
        Some(global) => global,
        None => { return Err(ConfigError::MissingGroup("global")); },
    };
    if candidate.advanced.is_none() {
        return Err(ConfigError::MissingGroup("advanced"));
    }
    let default_world = match &candidate.world {
        Some(world) => world,
        None => { return Err(ConfigError::MissingGroup("world")); },
    };
    if candidate.locale.is_none() {
        return Err(ConfigError::MissingGroup("locale"));
    }
    let render = match &candidate.render {
        Some(render) => render,
        None => { return Err(ConfigError::MissingGroup("render")); },
    };
    let ui = match &candidate.ui {
        Some(ui) => ui,
        None => { return Err(ConfigError::MissingGroup("ui")); },
    };
    let player_privacy_enabled = match candidate.player_privacy_enabled {
        Some(v) => v,
        None => { return Err(ConfigError::InvalidValue("player_privacy_enabled")); },
    };
    let event_capture_enabled = match candidate.event_capture_enabled {
        Some(v) => v,
        None => { return Err(ConfigError::InvalidValue("event_capture_enabled")); },
    };
    if global.http_port == 0 || global.http_port > 65_535 {
        return Err(ConfigError::InvalidBounds("http_port"));
    }
    if !global.compression_ratio_in_range {
        return Err(ConfigError::InvalidBounds("compression_ratio"));
    }
    validate_world_settings(default_world)?;
    if render.progress_logging_interval_seconds == 0 || render.background_interval_seconds == 0 {
        return Err(ConfigError::InvalidBounds("render interval"));
    }
    if render.background_max_chunks_per_interval == 0 || render.background_max_threads < -1 {
        return Err(ConfigError::InvalidBounds("render background"));
    }
    if ui.sidebar_pinned.as_str().is_empty() {
        return Err(ConfigError::InvalidValue("sidebar_pinned"));
    }
    let mut seen: Vec<WorldIdentity> = Vec::new();
    let worlds = &candidate.worlds;
    let mut i: usize = 0;
    while i < worlds.len()
        invariant
            i <= worlds@.len(),
            worlds_verdict(worlds@.subrange(0, i as int)) is Ok,
            seen@.len() == i,
            forall|j: int| 0 <= j < i ==> opt_world(#[trigger] worlds@[j].identity) == Some(seen@[j]@),
        decreases worlds@.len() - i,
    {
        let ghost prefix = worlds@.subrange(0, i as int);
        let ghost next = worlds@.subrange(0, i + 1);
        proof {
            assert(next.drop_last() =~= prefix);
        }
        if let Err(e) = validate_world(&worlds[i]) {
            proof {
                assert(next.last() == worlds@[i as int]);
                assert(worlds_verdict(next) == Err::<(), ConfigError>(e));
                lemma_first_world_failure_stays(worlds@, i as int + 1);
            }
            return Err(e);
        }
        let identity = match &worlds[i].identity {
            Some(identity) => identity,
            None => { return Err(ConfigError::MissingWorldIdentity); },
        };
        if seen_before(&seen, identity) {
            proof {
                let j = choose|j: int| 0 <= j < seen@.len() && (#[trigger] seen@[j])@ == identity@;
                assert(next.last() == worlds@[i as int]);
                assert(next[j] == worlds@[j]);
                assert(opt_world(next[j].identity) == opt_world(next.last().identity));
                assert(worlds_verdict(next) == Err::<(), ConfigError>(ConfigError::DuplicateWorldIdentity));
                lemma_first_world_failure_stays(worlds@, i as int + 1);
            }
            return Err(ConfigError::DuplicateWorldIdentity);
        }
        proof {
            assert(next.last() == worlds@[i as int]);
            assert forall|j: int| 0 <= j < next.len() - 1 implies opt_world(#[trigger] next[j].identity) != opt_world(next.last().identity) by {
                assert(next[j] == worlds@[j]);
                assert(seen@[j]@ != identity@);
            }
        }
        seen.push(identity.duplicate());
        i = i + 1;
    }
    assert(worlds@.subrange(0, worlds@.len() as int) =~= worlds@);
    if candidate.worlds.len() == 0 {
        return Err(ConfigError::InvalidValue("worlds"));
    }
    let revision = candidate.revision;
    let policy = BridgePolicyReplace {
        revision,
        max_control_frame_bytes: 1048576,
        max_snapshot_frame_bytes: 16777216,
        max_uncompressed_snapshot_bytes: 67108864,
        max_pending_dirty_chunks: 65_536,
        snapshot_credits: 64,
        player_privacy_enabled,
        event_capture_enabled,
    };
    Ok((ActiveConfig { revision, config: candidate }, policy))
}

/// The active configuration, replaced only by a configuration that validates.
pub struct ConfigStore {
    active: Option<ActiveConfig>,
}

impl ConfigStore {
    pub closed spec fn spec_active(&self) -> Option<ActiveConfig> {
        self.active
    }

    pub fn new() -> (s: ConfigStore)
        ensures
            s.spec_active() is None,
    {
        ConfigStore { active: None }
    }

    pub fn active(&self) -> (r: Option<&ActiveConfig>)
        ensures
            match r {
                Some(a) => self.spec_active() == Some(*a),
                None => self.spec_active() is None,
            },
    {
        self.active.as_ref()
    }

    /// Validates `candidate` and, only if it is accepted, makes it active.
    pub fn stage_and_swap(&mut self, candidate: ConfigReplace) -> (r: Result<BridgePolicyReplace, ConfigError>)
        ensures
            match r {
                Ok(policy) => config_verdict(candidate) is Ok && policy == policy_for(candidate)
                    && final(self).spec_active() == Some(ActiveConfig { revision: candidate.revision, config: candidate }),
                Err(e) => config_verdict(candidate) == Err::<(), ConfigError>(e)
                    && final(self).spec_active() == old(self).spec_active(),
            },
    {
        let (staged, policy) = validate_and_stage(candidate)?;
        self.active = Some(staged);
        Ok(policy)
    }
}

impl Default for ConfigStore {
    fn default() -> (s: ConfigStore)
        ensures
            s.spec_active() is None,
    {
        ConfigStore::new()
    }
}

/// Whether a replacement configuration asks the backend to own the HTTP listener.
pub fn should_bind_http(global: Option<&GlobalSettings>) -> (r: bool)
    ensures
        r == (global matches Some(g) && g.http_enabled),
{
    match global {
        Some(settings) => settings.http_enabled,
        None => false,
    }
}

/// The zoom levels of accepted world settings are in order: none is
/// negative and the default zoom is at most the maximum; world settings whose
/// default zoom exceeds their maximum are refused as out-of-bounds zoom
/// (unless an earlier bound, the biome blend, already refused them).
pub proof fn lemma_accepted_zoom_is_ordered(s: WorldSettings)
    ensures
        world_settings_verdict(s) is Ok ==> 0 <= s.zoom_default <= s.zoom_max && 0 <= s.zoom_extra,
        s.map_biomes_blend <= 15 && s.zoom_default > s.zoom_max ==> world_settings_verdict(s) == Err::<
            (),
            ConfigError,
        >(ConfigError::InvalidBounds("zoom")),
{
}

/// Every world of an accepted list is itself accepted.
proof fn lemma_accepted_worlds_each(ws: Seq<WorldConfig>)
    requires
        worlds_verdict(ws) is Ok,
    ensures
        forall|i: int| 0 <= i < ws.len() ==> world_verdict(#[trigger] ws[i]) is Ok,
    decreases ws.len(),
{
    if ws.len() > 0 {
        lemma_accepted_worlds_each(ws.drop_last());
        assert forall|i: int| 0 <= i < ws.len() implies world_verdict(#[trigger] ws[i]) is Ok by {
            if i < ws.len() - 1 {
                assert(ws.drop_last()[i] == ws[i]);
            }
        }
    }
}

/// An accepted configuration never carries world settings whose default zoom
/// exceeds their maximum: neither the default world settings nor those of any
/// configured world.
pub proof fn lemma_accepted_config_zoom_is_ordered(c: ConfigReplace)
    requires
        config_verdict(c) is Ok,
    ensures
        c.world matches Some(s) && 0 <= s.zoom_default <= s.zoom_max,
        forall|i: int| 0 <= i < c.worlds@.len() ==> ((#[trigger] c.worlds@[i]).settings matches Some(s)
            && 0 <= s.zoom_default <= s.zoom_max),
{
    lemma_accepted_worlds_each(c.worlds@);
    assert forall|i: int| 0 <= i < c.worlds@.len() implies ((#[trigger] c.worlds@[i]).settings matches Some(s)
        && 0 <= s.zoom_default <= s.zoom_max) by {
        assert(world_verdict(c.worlds@[i]) is Ok);
    }
}

} // verus!
