//! The decisions of a bridge replacement of the published views: stale
//! revisions and world epochs are refused, reloaded worlds lose their
//! markers, and outputs of worlds that are gone are removed.
use vstd::prelude::*;
use crate::paths::{chars_before, chars_from, equals_lit, has_prefix, same_text, starts_with_lit};
use crate::text::{chars_of, push_str};
use crate::wire::WorldIdentity;
use crate::serve::hex_digit;

verus! {

/// The message of a refused stale replacement.
pub open spec fn stale_message(domain: Seq<char>) -> Seq<char> {
    "stale "@ + domain + " replacement"@
}

/// The message of a refused stale replacement of `domain`.
pub fn stale_error(domain: &str) -> (m: String)
    ensures
        m@ == stale_message(domain@),
{
    let mut m = String::from_str("stale ");
    push_str(&mut m, domain);
    push_str(&mut m, " replacement");
    m
}

/// Refuses a replacement whose revision is set and not newer than the one
/// published.
pub fn reject_stale(revision: u64, previous: u64, domain: &str) -> (r: Result<(), String>)
    ensures
        (revision != 0 && revision <= previous) ==> (r matches Err(m) && m@ == stale_message(domain@)),
        !(revision != 0 && revision <= previous) ==> r is Ok,
{
    if revision != 0 && revision <= previous {
        return Err(stale_error(domain));
    }
    Ok(())
}

/// The name a world's outputs are published under: `<namespace>_<value>`.
pub open spec fn legacy_name(w: WorldIdentity) -> Seq<char> {
    w.namespace@ + "_"@ + w.value@
}

pub fn legacy_world_identity_name(world: &WorldIdentity) -> (n: String)
    ensures
        n@ == legacy_name(*world),
{
    let mut n = String::new();
    push_str(&mut n, world.namespace.as_str());
    push_str(&mut n, "_");
    push_str(&mut n, world.value.as_str());
    n
}

/// The name of a world that may lack an identity: empty where it does.
pub open spec fn world_name_of(w: Option<WorldIdentity>) -> Seq<char> {
    match w {
        Some(id) => legacy_name(id),
        None => Seq::empty(),
    }
}

pub fn world_name(identity: Option<&WorldIdentity>) -> (n: String)
    ensures
        n@ == world_name_of(match identity { Some(w) => Some(*w), None => None }),
{
    match identity {
        Some(w) => legacy_world_identity_name(w),
        None => String::new(),
    }
}

/// The key a world's epoch is kept under: `<namespace>/<value>`.
pub open spec fn epoch_key_of(w: WorldIdentity) -> Seq<char> {
    w.namespace@ + "/"@ + w.value@
}

pub fn epoch_key(world: &WorldIdentity) -> (k: String)
    ensures
        k@ == epoch_key_of(*world),
{
    let mut k = String::new();
    push_str(&mut k, world.namespace.as_str());
    push_str(&mut k, "/");
    push_str(&mut k, world.value.as_str());
    k
}

/// The epoch last published for each world key.
#[derive(Debug, Clone)]
pub struct EpochTable {
    entries: Vec<(String, u64)>,
}

/// The map of a list of key and epoch pairs, later pairs winning.
pub open spec fn epochs_of(s: Seq<(String, u64)>) -> Map<Seq<char>, u64>
    decreases s.len(),
{
    if s.len() == 0 {
        Map::empty()
    } else {
        epochs_of(s.drop_last()).insert(s.last().0@, s.last().1)
    }
}

impl View for EpochTable {
    type V = Map<Seq<char>, u64>;

    closed spec fn view(&self) -> Map<Seq<char>, u64> {
        epochs_of(self.entries@)
    }
}

proof fn lemma_epochs_push(s: Seq<(String, u64)>, p: (String, u64))
    ensures
        epochs_of(s.push(p)) == epochs_of(s).insert(p.0@, p.1),
{
    assert(s.push(p).drop_last() =~= s);
}

proof fn lemma_epochs_empty(s: Seq<(String, u64)>)
    ensures
        epochs_of(s).dom().finite(),
        (epochs_of(s).dom().len() == 0) == (s.len() == 0),
    decreases s.len(),
{
    if s.len() > 0 {
        lemma_epochs_empty(s.drop_last());
        assert(epochs_of(s).dom().contains(s.last().0@));
    }
}

impl EpochTable {
    pub fn new() -> (t: EpochTable)
        ensures
            t@ == Map::<Seq<char>, u64>::empty(),
    {
        EpochTable { entries: Vec::new() }
    }

    /// Records `epoch` for `key`, replacing what was recorded.
    pub fn insert(&mut self, key: String, epoch: u64)
        ensures
            final(self)@ == old(self)@.insert(key@, epoch),
    {
        let ghost before = self.entries@;
        let ghost k = key@;
        self.entries.push((key, epoch));
        proof {
            lemma_epochs_push(before, (self.entries@.last().0, epoch));
        }
    }

    /// Whether no epoch is recorded.
    pub fn is_empty(&self) -> (b: bool)
        ensures
            b == (self@.dom().len() == 0),
            self@.dom().finite(),
    {
        proof {
            lemma_epochs_empty(self.entries@);
        }
        self.entries.len() == 0
    }

    /// The epoch recorded for `key`.
    pub fn get(&self, key: &str) -> (r: Option<u64>)
        ensures
            r == (if self@.dom().contains(key@) {
                Some(self@[key@])
            } else {
                None::<u64>
            }),
    {
        let mut i: usize = self.entries.len();
        let ghost all = self.entries@;
        assert(all.subrange(0, i as int) =~= all);
        while i > 0
            invariant
                i <= all.len(),
                all == self.entries@,
                forall|j: int| i <= j < all.len() ==> all[j].0@ != key@,
                self@.dom().contains(key@) ==> epochs_of(all.subrange(0, i as int)).dom().contains(key@)
                    && epochs_of(all.subrange(0, i as int))[key@] == self@[key@],
                !self@.dom().contains(key@) ==> !epochs_of(all.subrange(0, i as int)).dom().contains(key@),
            decreases i,
        {
            let ghost prefix = all.subrange(0, i as int);
            assert(prefix.drop_last() =~= all.subrange(0, i - 1));
            if same_text(self.entries[i - 1].0.as_str(), key) {
                return Some(self.entries[i - 1].1);
            }
            i = i - 1;
        }
        None
    }
}

/// Checks a world identity against the published epochs: with none
/// published anything goes; else the world must be published with this
/// epoch.
pub open spec fn world_epoch_verdict(epochs: Map<Seq<char>, u64>, w: WorldIdentity) -> Result<(), Seq<char>> {
    if epochs.dom().len() == 0 {
        Ok(())
    } else if !epochs.dom().contains(epoch_key_of(w)) {
        Err("world is not present in canonical state"@)
    } else if epochs[epoch_key_of(w)] == w.epoch {
        Ok(())
    } else if w.epoch < epochs[epoch_key_of(w)] {
        Err(stale_message("world epoch"@))
    } else {
        Err("world epoch does not match canonical world"@)
    }
}

pub fn validate_world_epoch(epochs: &EpochTable, identity: &WorldIdentity) -> (r: Result<(), String>)
    ensures
        match world_epoch_verdict(epochs@, *identity) {
            Ok(()) => r is Ok,
            Err(m) => r matches Err(e) && e@ == m,
        },
{
    if epochs.is_empty() {
        return Ok(());
    }
    let key = epoch_key(identity);
    match epochs.get(key.as_str()) {
        Some(expected) => {
            if expected == identity.epoch {
                Ok(())
            } else if identity.epoch < expected {
                Err(stale_error("world epoch"))
            } else {
                Err(String::from_str("world epoch does not match canonical world"))
            }
        },
        None => Err(String::from_str("world is not present in canonical state")),
    }
}

/// Checks the world a player stands in: with epochs published the player
/// must name a world, which must match them.
pub open spec fn player_epoch_verdict(epochs: Map<Seq<char>, u64>, w: Option<WorldIdentity>) -> Result<(), Seq<char>> {
    if epochs.dom().len() == 0 {
        Ok(())
    } else {
        match w {
            None => Err("player has no world identity"@),
            Some(id) => world_epoch_verdict(epochs, id),
        }
    }
}

pub fn validate_player_epoch(epochs: &EpochTable, world: Option<&WorldIdentity>) -> (r: Result<(), String>)
    ensures
        match player_epoch_verdict(epochs@, match world { Some(w) => Some(*w), None => None }) {
            Ok(()) => r is Ok,
            Err(m) => r matches Err(e) && e@ == m,
        },
{
    if epochs.is_empty() {
        return Ok(());
    }
    match world {
        None => Err(String::from_str("player has no world identity")),
        Some(id) => validate_world_epoch(epochs, id),
    }
}

/// Whether a marker replacement fits the published worlds: one that names a
/// world must name it at its published epoch, and one without a world is
/// refused once any world is published.
pub open spec fn marker_epoch_verdict(epochs: Map<Seq<char>, u64>, w: Option<WorldIdentity>) -> Result<(), Seq<char>> {
    match w {
        Some(id) => world_epoch_verdict(epochs, id),
        None => if epochs.dom().len() == 0 {
            Ok(())
        } else {
            Err("marker replacement has no world identity"@)
        },
    }
}

/// Checks a marker replacement's world against the published epochs.
pub fn validate_marker_epoch(epochs: &EpochTable, world: Option<&WorldIdentity>) -> (r: Result<(), String>)
    ensures
        match marker_epoch_verdict(epochs@, match world { Some(w) => Some(*w), None => None }) {
            Ok(()) => r is Ok,
            Err(m) => r matches Err(e) && e@ == m,
        },
{
    match world {
        Some(id) => validate_world_epoch(epochs, id),
        None => {
            if epochs.is_empty() {
                Ok(())
            } else {
                Err(String::from_str("marker replacement has no world identity"))
            }
        },
    }
}

/// What a world-state replacement changes in the published epochs.
pub struct EpochChanges {
    /// The names of worlds published before under an older epoch.
    pub reloaded: Vec<String>,
    /// The epochs to publish: each identified world's, the last one of a key
    /// winning.
    pub epochs: EpochTable,
}

/// Whether any identified world goes back to an older epoch.
pub open spec fn stale_world(epochs: Map<Seq<char>, u64>, worlds: Seq<Option<WorldIdentity>>) -> bool {
    exists|i: int|
        0 <= i < worlds.len() && (#[trigger] worlds[i]) is Some && epochs.dom().contains(
            epoch_key_of(worlds[i]->0),
        ) && worlds[i]->0.epoch < epochs[epoch_key_of(worlds[i]->0)]
}

/// The names of the worlds that come back under a newer epoch, in order.
pub open spec fn reloaded_names(epochs: Map<Seq<char>, u64>, worlds: Seq<Option<WorldIdentity>>) -> Seq<Seq<char>>
    decreases worlds.len(),
{
    if worlds.len() == 0 {
        Seq::empty()
    } else {
        let rest = reloaded_names(epochs, worlds.drop_last());
        match worlds.last() {
            Some(id) => if epochs.dom().contains(epoch_key_of(id)) && id.epoch > epochs[epoch_key_of(id)] {
                rest.push(legacy_name(id))
            } else {
                rest
            },
            None => rest,
        }
    }
}

/// The epochs that a list of worlds publishes.
pub open spec fn published_epochs(worlds: Seq<Option<WorldIdentity>>) -> Map<Seq<char>, u64>
    decreases worlds.len(),
{
    if worlds.len() == 0 {
        Map::empty()
    } else {
        let rest = published_epochs(worlds.drop_last());
        match worlds.last() {
            Some(id) => rest.insert(epoch_key_of(id), id.epoch),
            None => rest,
        }
    }
}

/// Works out the epoch changes of a world-state replacement, refusing one
/// that takes a world back to an older epoch.
pub fn epoch_changes(epochs: &EpochTable, worlds: &Vec<Option<WorldIdentity>>) -> (r: Result<EpochChanges, String>)
    ensures
        stale_world(epochs@, worlds@) ==> (r matches Err(m) && m@ == stale_message("world epoch"@)),
        !stale_world(epochs@, worlds@) ==> (r matches Ok(c) && c.reloaded@.map_values(|n: String| n@)
            == reloaded_names(epochs@, worlds@) && c.epochs@ == published_epochs(worlds@)),
{
    let mut i: usize = 0;
    while i < worlds.len()
        invariant
            i <= worlds@.len(),
            forall|j: int|
                0 <= j < i ==> !((#[trigger] worlds@[j]) is Some && epochs@.dom().contains(
                    epoch_key_of(worlds@[j]->0),
                ) && worlds@[j]->0.epoch < epochs@[epoch_key_of(worlds@[j]->0)]),
        decreases worlds@.len() - i,
    {
        if let Some(identity) = &worlds[i] {
            let key = epoch_key(identity);
            if let Some(previous) = epochs.get(key.as_str()) {
                if identity.epoch < previous {
                    return Err(stale_error("world epoch"));
                }
            }
        }
        i = i + 1;
    }
    let mut reloaded: Vec<String> = Vec::new();
    let mut published = EpochTable::new();
    let mut k: usize = 0;
    while k < worlds.len()
        invariant
            k <= worlds@.len(),
            reloaded@.map_values(|n: String| n@) == reloaded_names(epochs@, worlds@.subrange(0, k as int)),
            published@ == published_epochs(worlds@.subrange(0, k as int)),
        decreases worlds@.len() - k,
    {
        proof {
            assert(worlds@.subrange(0, k + 1).drop_last() =~= worlds@.subrange(0, k as int));
        }
        if let Some(identity) = &worlds[k] {
            let key = epoch_key(identity);
            let name = legacy_world_identity_name(identity);
            let ghost before = reloaded@;
            match epochs.get(key.as_str()) {
                Some(previous) => {
                    if identity.epoch > previous {
                        reloaded.push(name);
                        proof {
                            assert(reloaded@.map_values(|n: String| n@) =~= before.map_values(|n: String| n@).push(
                                legacy_name(*identity),
                            ));
                        }
                    }
                },
                None => {},
            }
            published.insert(key, identity.epoch);
        }
        k = k + 1;
    }
    proof {
        assert(worlds@.subrange(0, worlds@.len() as int) =~= worlds@);
    }
    Ok(EpochChanges { reloaded, epochs: published })
}

/// Whether `names` holds `name`.
pub open spec fn names_contain(names: Seq<String>, name: Seq<char>) -> bool {
    exists|i: int| 0 <= i < names.len() && (#[trigger] names[i])@ == name
}

/// The texts of `paths` that `keep` does not list, in their order.
pub open spec fn unlisted_of(paths: Seq<String>, keep: Seq<String>) -> Seq<Seq<char>>
    decreases paths.len(),
{
    if paths.len() == 0 {
        Seq::empty()
    } else {
        let rest = unlisted_of(paths.drop_last(), keep);
        if names_contain(keep, paths.last()@) {
            rest
        } else {
            rest.push(paths.last()@)
        }
    }
}

/// The outputs that a publication drops: those of `paths` (what was
/// published before) that `keep` (what is published now) no longer lists.
pub fn unlisted(paths: &Vec<String>, keep: &Vec<String>) -> (r: Vec<String>)
    ensures
        r@.map_values(|t: String| t@) == unlisted_of(paths@, keep@),
{
    let mut r: Vec<String> = Vec::new();
    let mut i: usize = 0;
    while i < paths.len()
        invariant
            i <= paths@.len(),
            r@.map_values(|t: String| t@) == unlisted_of(paths@.subrange(0, i as int), keep@),
        decreases paths@.len() - i,
    {
        let ghost prefix = paths@.subrange(0, i as int + 1);
        assert(prefix.drop_last() =~= paths@.subrange(0, i as int));
        assert(prefix.last() == paths@[i as int]);
        let name = chars_of(paths[i].as_str());
        if !contains_name(keep, &name) {
            let copy = String::from_str(paths[i].as_str());
            let ghost before = r@;
            r.push(copy);
            assert(r@.map_values(|t: String| t@) =~= before.map_values(|t: String| t@).push(paths@[i as int]@));
        }
        i = i + 1;
    }
    assert(paths@.subrange(0, paths@.len() as int) =~= paths@);
    r
}

fn contains_name(names: &Vec<String>, name: &Vec<char>) -> (b: bool)
    ensures
        b == names_contain(names@, name@),
{
    let mut i: usize = 0;
    while i < names.len()
        invariant
            i <= names@.len(),
            forall|j: int| 0 <= j < i ==> (#[trigger] names@[j])@ != name@,
        decreases names@.len() - i,
    {
        let candidate = chars_of(names[i].as_str());
        if same_chars(&candidate, name) {
            return true;
        }
        i = i + 1;
    }
    false
}

fn same_chars(a: &Vec<char>, b: &Vec<char>) -> (r: bool)
    ensures
        r == (a@ == b@),
{
    if a.len() != b.len() {
        return false;
    }
    let mut i: usize = 0;
    while i < a.len()
        invariant
            i <= a@.len(),
            a@.len() == b@.len(),
            forall|j: int| 0 <= j < i ==> a@[j] == b@[j],
        decreases a@.len() - i,
    {
        if a[i] != b[i] {
            return false;
        }
        i = i + 1;
    }
    assert(a@ =~= b@);
    true
}

/// The index of the first `c` in `s`, or -1.
pub open spec fn first_index(s: Seq<char>, c: char) -> int
    decreases s.len(),
{
    if s.len() == 0 {
        -1
    } else if s[0] == c {
        0
    } else {
        let k = first_index(s.subrange(1, s.len() as int), c);
        if k < 0 {
            -1
        } else {
            k + 1
        }
    }
}

fn find_first(s: &Vec<char>, c: char) -> (r: Option<usize>)
    ensures
        match r {
            Some(k) => first_index(s@, c) == k && k < s.len(),
            None => first_index(s@, c) == -1,
        },
{
    let mut i: usize = 0;
    while i < s.len()
        invariant
            i <= s@.len(),
            forall|j: int| 0 <= j < i ==> s@[j] != c,
        decreases s@.len() - i,
    {
        if s[i] == c {
            proof {
                lemma_first_index(s@, c, i as int);
            }
            return Some(i);
        }
        i = i + 1;
    }
    proof {
        lemma_no_index(s@, c);
    }
    None
}

proof fn lemma_first_index(s: Seq<char>, c: char, k: int)
    requires
        0 <= k < s.len(),
        s[k] == c,
        forall|j: int| 0 <= j < k ==> s[j] != c,
    ensures
        first_index(s, c) == k,
    decreases k,
{
    if k > 0 {
        let t = s.subrange(1, s.len() as int);
        assert forall|j: int| 0 <= j < k - 1 implies t[j] != c by {
            assert(t[j] == s[j + 1]);
        }
        lemma_first_index(t, c, k - 1);
    }
}

proof fn lemma_no_index(s: Seq<char>, c: char)
    requires
        forall|j: int| 0 <= j < s.len() ==> s[j] != c,
    ensures
        first_index(s, c) == -1,
    decreases s.len(),
{
    if s.len() > 0 {
        let t = s.subrange(1, s.len() as int);
        assert forall|j: int| 0 <= j < t.len() implies t[j] != c by {
            assert(t[j] == s[j + 1]);
        }
        lemma_no_index(t, c);
    }
}

/// Whether an existing file under `tiles/` goes with a world-state
/// replacement: the markers of a reloaded world, and the settings and
/// markers of a world no longer published.
pub open spec fn stale_tile_output(path: Seq<char>, reloaded: Seq<String>, current: Seq<String>) -> bool {
    has_prefix(path, "tiles/"@) && {
        let rest = path.subrange(6, path.len() as int);
        let k = first_index(rest, '/');
        k >= 0 && {
            let name = rest.subrange(0, k);
            let file = rest.subrange(k + 1, rest.len() as int);
            (file == "markers.json"@ && names_contain(reloaded, name)) || ((file == "settings.json"@ || file
                == "markers.json"@) && !names_contain(current, name))
        }
    }
}

pub fn is_stale_tile_output(path: &str, reloaded: &Vec<String>, current: &Vec<String>) -> (b: bool)
    ensures
        b == stale_tile_output(path@, reloaded@, current@),
{
    let chars = chars_of(path);
    if !starts_with_lit(&chars, "tiles/") {
        return false;
    }
    proof {
        reveal_strlit("tiles/");
    }
    let rest = chars_from(&chars, 6);
    let k = match find_first(&rest, '/') {
        Some(k) => k,
        None => {
            return false;
        },
    };
    let name = chars_before(&rest, k);
    let file = chars_from(&rest, k + 1);
    let markers = equals_lit(&file, "markers.json");
    let settings = equals_lit(&file, "settings.json");
    (markers && contains_name(reloaded, &name)) || ((settings || markers) && !contains_name(current, &name))
}

/// Whether a recorded marker output belongs to a world no longer published.
pub open spec fn orphan_marker_output(path: Seq<char>, current: Seq<String>) -> bool {
    has_prefix(path, "tiles/"@) && {
        let rest = path.subrange(6, path.len() as int);
        rest.len() >= 13 && rest.subrange(rest.len() - 13, rest.len() as int) == "/markers.json"@ && !names_contain(
            current,
            rest.subrange(0, rest.len() - 13),
        )
    }
}

pub fn is_orphan_marker_output(path: &str, current: &Vec<String>) -> (b: bool)
    ensures
        b == orphan_marker_output(path@, current@),
{
    let chars = chars_of(path);
    if !starts_with_lit(&chars, "tiles/") {
        return false;
    }
    proof {
        reveal_strlit("tiles/");
        reveal_strlit("/markers.json");
    }
    let rest = chars_from(&chars, 6);
    if rest.len() < 13 {
        return false;
    }
    let tail = chars_from(&rest, rest.len() - 13);
    if !equals_lit(&tail, "/markers.json") {
        return false;
    }
    let name = chars_before(&rest, rest.len() - 13);
    !contains_name(current, &name)
}

/// `tiles/<name>/<file>`.
pub open spec fn tile_output_path(name: Seq<char>, file: Seq<char>) -> Seq<char> {
    "tiles/"@ + name + "/"@ + file
}

pub fn world_output_path(name: &str, file: &str) -> (p: String)
    ensures
        p@ == tile_output_path(name@, file@),
{
    let mut p = String::from_str("tiles/");
    push_str(&mut p, name);
    push_str(&mut p, "/");
    push_str(&mut p, file);
    p
}

/// The file a registered icon is published as.
pub open spec fn icon_asset_path_of(id: Seq<char>) -> Seq<char> {
    "images/icon/registered/"@ + id + ".png"@
}

pub fn icon_asset_path(id: &str) -> (p: String)
    ensures
        p@ == icon_asset_path_of(id@),
{
    let mut p = String::from_str("images/icon/registered/");
    push_str(&mut p, id);
    push_str(&mut p, ".png");
    p
}


/// The lower-case hexadecimal text of a byte string, two digits per byte.
pub open spec fn hex_bytes(b: Seq<u8>) -> Seq<char>
    decreases b.len(),
{
    if b.len() == 0 {
        Seq::empty()
    } else {
        hex_bytes(b.drop_last()) + seq![hex_digit((b.last() / 16) as nat), hex_digit((b.last() % 16) as nat)]
    }
}

/// `hex::encode`: the lower-case hexadecimal text of the bytes, two digits
/// per byte, most significant digit first.
#[verifier::external_body]
fn hex_encode(bytes: &Vec<u8>) -> (s: String)
    ensures
        s@ == hex_bytes(bytes@),
{
    hex::encode(bytes.as_slice())
}

/// The identifier a player is published under: its UUID in hexadecimal.
pub fn player_uuid_text(uuid: &Vec<u8>) -> (s: String)
    ensures
        s@ == hex_bytes(uuid@),
{
    hex_encode(uuid)
}

/// Whether the `i`-th listed world comes back under an epoch strictly newer
/// than the one published under its key.
pub open spec fn comes_back_newer(epochs: Map<Seq<char>, u64>, worlds: Seq<Option<WorldIdentity>>, i: int) -> bool {
    &&& 0 <= i < worlds.len()
    &&& worlds[i] matches Some(id)
    &&& epochs.dom().contains(epoch_key_of(id))
    &&& id.epoch > epochs[epoch_key_of(id)]
}

/// A world-state replacement reports a world reloaded exactly when it comes
/// back under a strictly newer epoch than the published one: every reloaded
/// name is the name of such a world, every such world's name is reloaded, and
/// a replacement that keeps (or does not list) every published epoch reloads
/// nothing, so no world keeps its markers only when its epoch is unchanged.
pub proof fn lemma_reloaded_exactly_when_newer(epochs: Map<Seq<char>, u64>, worlds: Seq<Option<WorldIdentity>>)
    ensures
        forall|j: int| #![trigger reloaded_names(epochs, worlds)[j]] 0 <= j < reloaded_names(epochs, worlds).len() ==> exists|i: int|
            #[trigger] comes_back_newer(epochs, worlds, i) && reloaded_names(epochs, worlds)[j] == legacy_name(
                worlds[i]->0,
            ),
        forall|i: int| #[trigger] comes_back_newer(epochs, worlds, i) ==> reloaded_names(epochs, worlds).contains(
            legacy_name(worlds[i]->0),
        ),
        (forall|i: int| !#[trigger] comes_back_newer(epochs, worlds, i)) ==> reloaded_names(epochs, worlds).len() == 0,
    decreases worlds.len(),
{
    if worlds.len() > 0 {
        let prev = worlds.drop_last();
        lemma_reloaded_exactly_when_newer(epochs, prev);
        let rest = reloaded_names(epochs, prev);
        let all = reloaded_names(epochs, worlds);
        let last = worlds.len() - 1;
        assert forall|i: int| #[trigger] comes_back_newer(epochs, prev, i) implies comes_back_newer(epochs, worlds, i) by {
            assert(prev[i] == worlds[i]);
        }
        assert forall|j: int| #![trigger all[j]] 0 <= j < all.len() implies exists|i: int|
            #[trigger] comes_back_newer(epochs, worlds, i) && all[j] == legacy_name(worlds[i]->0) by {
            if j < rest.len() {
                assert(all[j] == rest[j]);
                let i = choose|i: int| #[trigger] comes_back_newer(epochs, prev, i) && rest[j] == legacy_name(prev[i]->0);
                assert(prev[i] == worlds[i]);
                assert(comes_back_newer(epochs, worlds, i));
            } else {
                assert(comes_back_newer(epochs, worlds, last));
            }
        }
        assert forall|i: int| #[trigger] comes_back_newer(epochs, worlds, i) implies all.contains(legacy_name(worlds[i]->0)) by {
            if i < last {
                assert(prev[i] == worlds[i]);
                assert(comes_back_newer(epochs, prev, i));
                let k = choose|k: int| 0 <= k < rest.len() && rest[k] == legacy_name(prev[i]->0);
                assert(all[k] == rest[k]);
            } else {
                assert(all[all.len() - 1] == legacy_name(worlds[i]->0));
            }
        }
        if forall|i: int| !#[trigger] comes_back_newer(epochs, worlds, i) {
            assert(!comes_back_newer(epochs, worlds, last));
            assert forall|i: int| !#[trigger] comes_back_newer(epochs, prev, i) by {
                if comes_back_newer(epochs, prev, i) {
                    assert(prev[i] == worlds[i]);
                    assert(comes_back_newer(epochs, worlds, i));
                }
            }
        }
    }
}

} // verus!
