//! Bridge bootstrap: the token the bridge hands over on standard input, the
//! errors of a bootstrap, and how an accepted configuration sets up the tile
//! installer and the scheduler.
use vstd::prelude::*;
use base64::Engine;
use crate::config::{ConfigReplace, BridgePolicyReplace};
use crate::scheduler::{SchedulerConfig, DEFAULT_TRANSIENT_RETRY_DELAY_MILLIS};
use vstd::string::StrSliceExecFns;
use crate::text::{push_str, push_char};
use crate::wire::WorldIdentity;

verus! {

pub const SESSION_ID_BYTES: usize = 16;
pub const BOOTSTRAP_TOKEN_BYTES: usize = 32;
pub const MAX_TOKEN_LINE_BYTES: usize = 88;
/// The deepest zoom level the tile pyramid holds.
pub const MAX_PYRAMID_ZOOM: u8 = 9;

/// Why a bootstrap failed.
#[derive(Debug, Clone, PartialEq, Eq)]
pub enum BootstrapError {
    InvalidConnect(String),
    Token(String),
    Io(String),
    Frame(String),
    Rejected(String),
    ConnectTimeout,
}

/// The display text of a [`BootstrapError`].
pub open spec fn bootstrap_error_text(e: BootstrapError) -> Seq<char> {
    match e {
        BootstrapError::InvalidConnect(m) => "invalid loopback connect address: "@ + m@,
        BootstrapError::Token(m) => "invalid bootstrap token: "@ + m@,
        BootstrapError::Io(m) => "I/O error: "@ + m@,
        BootstrapError::Frame(m) => "bridge frame error: "@ + m@,
        BootstrapError::Rejected(m) => "bridge rejected handshake: "@ + m@,
        BootstrapError::ConnectTimeout => "bridge connection timed out"@,
    }
}

impl BootstrapError {
    pub fn display_text(&self) -> (s: String)
        ensures
            s@ == bootstrap_error_text(*self),
    {
        let (prefix, message): (&str, &String) = match self {
            BootstrapError::InvalidConnect(m) => ("invalid loopback connect address: ", m),
            BootstrapError::Token(m) => ("invalid bootstrap token: ", m),
            BootstrapError::Io(m) => ("I/O error: ", m),
            BootstrapError::Frame(m) => ("bridge frame error: ", m),
            BootstrapError::Rejected(m) => ("bridge rejected handshake: ", m),
            BootstrapError::ConnectTimeout => {
                return String::from_str("bridge connection timed out");
            },
        };
        let mut s = String::from_str(prefix);
        push_str(&mut s, message.as_str());
        s
    }
}

/// Whether `e` is a token error with message `m`.
pub open spec fn is_token_error(e: BootstrapError, m: Seq<char>) -> bool {
    e matches BootstrapError::Token(t) && t@ == m
}

/// The first 89 bytes of what standard input gave.
pub open spec fn token_taken(input: Seq<u8>) -> Seq<u8> {
    if input.len() <= MAX_TOKEN_LINE_BYTES + 1 {
        input
    } else {
        input.subrange(0, MAX_TOKEN_LINE_BYTES + 1)
    }
}

/// A line without its final newline and the carriage return before it.
pub open spec fn without_line_end(taken: Seq<u8>) -> Seq<u8> {
    let line = taken.drop_last();
    if line.len() > 0 && line.last() == 13 {
        line.drop_last()
    } else {
        line
    }
}

pub open spec fn all_ascii(line: Seq<u8>) -> bool {
    forall|i: int| 0 <= i < line.len() ==> line[i] < 128
}

/// The token line of what standard input gave: of its first 89 bytes, the
/// line before the newline that must end them, without a carriage return
/// before that newline; refused where no newline ends them, or where the line
/// is too long or not ASCII.
pub open spec fn token_line(input: Seq<u8>) -> Result<Seq<u8>, Seq<char>> {
    let taken = token_taken(input);
    if taken.len() == 0 || taken.last() != 10 {
        Err("expected one newline-terminated line of at most 88 characters"@)
    } else if without_line_end(taken).len() > MAX_TOKEN_LINE_BYTES || !all_ascii(without_line_end(taken)) {
        Err("token line is too long or non-ASCII"@)
    } else {
        Ok(without_line_end(taken))
    }
}

/// What the standard base64 alphabet with padding decodes `data` to.
pub uninterp spec fn base64_decoded(data: Seq<u8>) -> Option<Seq<u8>>;

/// `base64::engine::general_purpose::STANDARD.decode`.
///
/// Claims that the call succeeds exactly when `base64_decoded` has a value
/// for the input, and that it then returns that value. What the error's
/// message says is left unsaid.
#[verifier::external_body]
fn decode_base64(data: &Vec<u8>) -> (r: Result<Vec<u8>, String>)
    ensures
        match r {
            Ok(v) => base64_decoded(data@) == Some(v@),
            Err(_) => base64_decoded(data@) is None,
        },
{
    base64::engine::general_purpose::STANDARD.decode(data.as_slice()).map_err(|e| e.to_string())
}

/// Wipes a buffer that held secret bytes (`Zeroize::zeroize` on a `Vec<u8>`
/// of the zeroize crate): its elements and spare capacity are overwritten with
/// zeros and it is cleared.
#[verifier::external_body]
fn wipe(bytes: &mut Vec<u8>)
    ensures
        final(bytes)@ == Seq::<u8>::empty(),
{
    zeroize::Zeroize::zeroize(bytes);
}

/// Cuts what standard input gave down to the token line.
pub fn token_line_of(input: &Vec<u8>) -> (r: Result<Vec<u8>, BootstrapError>)
    ensures
        match token_line(input@) {
            Ok(l) => r matches Ok(v) && v@ == l,
            Err(m) => r matches Err(e) && is_token_error(e, m),
        },
{
    let limit = MAX_TOKEN_LINE_BYTES + 1;
    let mut line: Vec<u8> = Vec::new();
    let mut i: usize = 0;
    let end = if input.len() <= limit { input.len() } else { limit };
    while i < end
        invariant
            i <= end,
            end <= input@.len(),
            line@ == input@.subrange(0, i as int),
        decreases end - i,
    {
        line.push(input[i]);
        i = i + 1;
        assert(line@ =~= input@.subrange(0, i as int));
    }
    assert(line@ =~= token_taken(input@));
    if line.len() == 0 || line[line.len() - 1] != 10 {
        wipe(&mut line);
        return Err(BootstrapError::Token(
            String::from_str("expected one newline-terminated line of at most 88 characters"),
        ));
    }
    let ghost taken = line@;
    line.pop();
    if line.len() > 0 && line[line.len() - 1] == 13 {
        line.pop();
    }
    let ghost spec_line = without_line_end(taken);
    assert(line@ =~= spec_line);
    let mut ascii = true;
    let mut j: usize = 0;
    while j < line.len()
        invariant
            j <= line@.len(),
            line@ == spec_line,
            ascii == (forall|k: int| 0 <= k < j ==> line@[k] < 128),
        decreases line@.len() - j,
    {
        if line[j] >= 128 {
            ascii = false;
        }
        j = j + 1;
    }
    if line.len() > MAX_TOKEN_LINE_BYTES || !ascii {
        wipe(&mut line);
        return Err(BootstrapError::Token(String::from_str("token line is too long or non-ASCII")));
    }
    Ok(line)
}

/// The token that a decoded line gives: exactly 32 bytes, or a token error.
pub fn token_from_decoded(decoded: Result<Vec<u8>, String>) -> (r: Result<Vec<u8>, BootstrapError>)
    ensures
        match decoded {
            Err(m) => r == Err::<Vec<u8>, BootstrapError>(BootstrapError::Token(m)),
            Ok(d) => if d@.len() == BOOTSTRAP_TOKEN_BYTES {
                r matches Ok(v) && v@ == d@
            } else {
                r matches Err(e) && is_token_error(e, "token must decode to exactly 32 bytes"@)
            },
        },
{
    match decoded {
        Err(m) => Err(BootstrapError::Token(m)),
        Ok(mut d) => {
            if d.len() != BOOTSTRAP_TOKEN_BYTES {
                wipe(&mut d);
                return Err(BootstrapError::Token(String::from_str("token must decode to exactly 32 bytes")));
            }
            Ok(d)
        },
    }
}

/// Reads the bootstrap token from what standard input gave: one base64 line
/// of at most 88 characters that decodes to exactly 32 bytes.
pub fn read_token(input: &Vec<u8>) -> (r: Result<Vec<u8>, BootstrapError>)
    ensures
        match token_line(input@) {
            Err(m) => r matches Err(e) && is_token_error(e, m),
            Ok(l) => match base64_decoded(l) {
                None => r matches Err(BootstrapError::Token(_)),
                Some(d) => if d.len() == BOOTSTRAP_TOKEN_BYTES {
                    r matches Ok(v) && v@ == d
                } else {
                    r matches Err(e) && is_token_error(e, "token must decode to exactly 32 bytes"@)
                },
            },
        },
{
    let line = match token_line_of(input) {
        Ok(l) => l,
        Err(e) => {
            return Err(e);
        },
    };
    let mut line = line;
    let decoded = decode_base64(&line);
    wipe(&mut line);
    token_from_decoded(decoded)
}

/// The tile directory of a world: `tiles/<namespace>_<value>`, or the joined
/// name alone where it is absolute.
pub open spec fn tile_prefix_of(w: WorldIdentity) -> Seq<char> {
    let name = w.namespace@ + "_"@ + w.value@;
    if name.len() > 0 && name[0] == '/' {
        name
    } else {
        "tiles/"@ + name
    }
}

/// The tile directory of a world.
pub fn tile_prefix(world: &WorldIdentity) -> (p: String)
    ensures
        p@ == tile_prefix_of(*world),
{
    let mut name = String::new();
    push_str(&mut name, world.namespace.as_str());
    push_char(&mut name, '_');
    push_str(&mut name, world.value.as_str());
    proof {
        reveal_strlit("_");
        reveal_strlit("tiles/");
        assert(name@ =~= world.namespace@ + "_"@ + world.value@);
    }
    let absolute = world.namespace.as_str().unicode_len() > 0 && world.namespace.as_str().get_char(0) == '/';
    proof {
        if world.namespace@.len() > 0 {
            assert(name@[0] == world.namespace@[0]);
        } else {
            assert(name@[0] == '_');
        }
    }
    if absolute {
        name
    } else {
        let mut p = String::from_str("tiles/");
        push_str(&mut p, name.as_str());
        p
    }
}

/// How one configured world is set up for rendering.
#[derive(Debug, Clone, PartialEq, Eq)]
pub struct WorldPlan {
    /// The world's place in the configuration's world list.
    pub index: usize,
    pub world: WorldIdentity,
    pub max_zoom: u8,
    pub tile_prefix: String,
    pub compress_images: bool,
}

/// The message of a refused world zoom, naming the world.
pub open spec fn world_zoom_message(lead: Seq<char>, w: WorldIdentity) -> Seq<char> {
    lead + " for "@ + w.namespace@ + ":"@ + w.value@
}

fn world_zoom_text(lead: &str, w: &WorldIdentity) -> (s: String)
    ensures
        s@ == world_zoom_message(lead@, *w),
{
    let mut s = String::from_str(lead);
    push_str(&mut s, " for ");
    push_str(&mut s, w.namespace.as_str());
    push_str(&mut s, ":");
    push_str(&mut s, w.value.as_str());
    s
}

/// The zoom check of one value: a `u8` no deeper than the pyramid.
pub open spec fn zoom_verdict(zoom: i32) -> Option<bool> {
    if zoom < 0 || zoom > 255 {
        None
    } else {
        Some(zoom <= MAX_PYRAMID_ZOOM)
    }
}

/// What the installer setup answers: the worlds it sets up, in order, and
/// either the scheduler limits with whether background rendering runs, or
/// the first refusal.
pub struct InstallerPlan {
    pub worlds: Vec<WorldPlan>,
    pub outcome: Result<(SchedulerConfig, bool), String>,
}

/// The worlds of `config` that pass the zoom checks, up to the first that
/// fails one, and that refusal's message.
pub open spec fn world_plans_ok(config: ConfigReplace, plans: Seq<WorldPlan>, k: int) -> bool {
    &&& plans.len() == k
    &&& forall|i: int|
        0 <= i < k ==> {
            let w = #[trigger] config.worlds@[i];
            &&& w.identity is Some
            &&& w.settings is Some
            &&& zoom_verdict(w.settings->0.zoom_max) == Some(true)
            &&& plans[i].index == i
            &&& plans[i].world@ == w.identity->0@
            &&& plans[i].max_zoom == w.settings->0.zoom_max
            &&& plans[i].tile_prefix@ == tile_prefix_of(w.identity->0)
            &&& plans[i].compress_images == config.global->0.compress_images
        }
}

/// Why world `w` is refused, if it is.
pub open spec fn world_refusal(w: crate::config::WorldConfig) -> Option<Seq<char>> {
    match w.identity {
        None => Some("world identity is missing"@),
        Some(id) => match w.settings {
            None => Some("world settings are missing"@),
            Some(s) => match zoom_verdict(s.zoom_max) {
                None => Some(world_zoom_message("maximum zoom is outside platform bounds"@, id)),
                Some(false) => Some(world_zoom_message("maximum zoom exceeds the tile pyramid limit"@, id)),
                Some(true) => None,
            },
        },
    }
}

/// The refusal of the configuration's required sections and default world.
pub open spec fn section_refusal(config: ConfigReplace) -> Option<Seq<char>> {
    if config.global is None {
        Some("global settings are missing"@)
    } else if config.world is None {
        Some("default world settings are missing"@)
    } else if config.render is None {
        Some("render settings are missing"@)
    } else {
        match zoom_verdict(config.world->0.zoom_max) {
            None => Some("maximum zoom is outside platform bounds"@),
            Some(false) => Some("maximum zoom exceeds the tile pyramid limit"@),
            Some(true) => None,
        }
    }
}

/// Plans the installer setup of an accepted configuration: the sections it
/// needs, a zoom no deeper than the pyramid for the default world and for
/// each configured world, and the scheduler limits from the bridge policy.
pub fn plan_installer(config: &ConfigReplace, policy: &BridgePolicyReplace) -> (plan: InstallerPlan)
    ensures
        match section_refusal(*config) {
            Some(m) => plan.worlds@.len() == 0 && (plan.outcome matches Err(e) && e@ == m),
            None => {
                let k = plan.worlds@.len() as int;
                &&& k <= config.worlds@.len()
                &&& world_plans_ok(*config, plan.worlds@, k)
                &&& (if k < config.worlds@.len() {
                    plan.outcome matches Err(e) && world_refusal(config.worlds@[k]) == Some(e@)
                } else {
                    &&& plan.outcome matches Ok((limits, background))
                    &&& limits.max_active_snapshots
                        == policy.snapshot_credits
                    &&& limits.dirty_page_size
                        == config.world->0.background_render_max_chunks_per_interval
                    &&& limits.background_interval_seconds
                        == config.world->0.background_render_interval_seconds
                    &&& limits.transient_retry_delay_millis == DEFAULT_TRANSIENT_RETRY_DELAY_MILLIS
                    &&& background == (config.render->0.background_enabled
                        && config.world->0.background_render_enabled)
                })
            },
        },
{
    let global = match &config.global {
        Some(g) => g,
        None => {
            return InstallerPlan { worlds: Vec::new(), outcome: Err(String::from_str("global settings are missing")) };
        },
    };
    let default_world = match &config.world {
        Some(w) => w,
        None => {
            return InstallerPlan {
                worlds: Vec::new(),
                outcome: Err(String::from_str("default world settings are missing")),
            };
        },
    };
    let render = match &config.render {
        Some(r) => r,
        None => {
            return InstallerPlan { worlds: Vec::new(), outcome: Err(String::from_str("render settings are missing")) };
        },
    };
    if default_world.zoom_max < 0 || default_world.zoom_max > 255 {
        return InstallerPlan {
            worlds: Vec::new(),
            outcome: Err(String::from_str("maximum zoom is outside platform bounds")),
        };
    }
    if default_world.zoom_max > 9 {
        return InstallerPlan {
            worlds: Vec::new(),
            outcome: Err(String::from_str("maximum zoom exceeds the tile pyramid limit")),
        };
    }
    let mut worlds: Vec<WorldPlan> = Vec::new();
    let mut i: usize = 0;
    while i < config.worlds.len()
        invariant
            i <= config.worlds@.len(),
            config.global == Some(*global),
            section_refusal(*config) is None,
            world_plans_ok(*config, worlds@, i as int),
        decreases config.worlds@.len() - i,
    {
        let configured = &config.worlds[i];
        let identity = match &configured.identity {
            Some(id) => id,
            None => {
                return InstallerPlan { worlds, outcome: Err(String::from_str("world identity is missing")) };
            },
        };
        let settings = match &configured.settings {
            Some(s) => s,
            None => {
                return InstallerPlan { worlds, outcome: Err(String::from_str("world settings are missing")) };
            },
        };
        if settings.zoom_max < 0 || settings.zoom_max > 255 {
            let message = world_zoom_text("maximum zoom is outside platform bounds", identity);
            return InstallerPlan { worlds, outcome: Err(message) };
        }
        if settings.zoom_max > 9 {
            let message = world_zoom_text("maximum zoom exceeds the tile pyramid limit", identity);
            return InstallerPlan { worlds, outcome: Err(message) };
        }
        let prefix = tile_prefix(identity);
        worlds.push(
            WorldPlan {
                index: i,
                world: identity.duplicate(),
                max_zoom: settings.zoom_max as u8,
                tile_prefix: prefix,
                compress_images: global.compress_images,
            },
        );
        i = i + 1;
    }
    let limits = SchedulerConfig::with_limits(
        policy.snapshot_credits as usize,
        default_world.background_render_max_chunks_per_interval as usize,
        default_world.background_render_interval_seconds as u64,
    );
    InstallerPlan {
        worlds,
        outcome: Ok((limits, render.background_enabled && default_world.background_render_enabled)),
    }
}

} // verus!
