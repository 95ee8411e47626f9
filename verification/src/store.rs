//! The in-memory stores the service keeps when no database is connected:
//! cameras, AI provider configurations and recent events.
use vstd::prelude::*;

use crate::text::{byte_prefix_chars, chars_in_byte_prefix, chars_of, slice_chars, string_of, utf8_len, utf8_length};

verus! {

fn copy_opt_string(o: &Option<String>) -> (r: Option<String>)
    ensures
        r == *o,
{
    match o {
        Some(s) => Some(s.clone()),
        None => None,
    }
}

// ---------------------------------------------------------------------------
// Cameras
// ---------------------------------------------------------------------------

/// A registered camera.
#[derive(Debug, Clone, PartialEq)]
pub struct Camera {
    pub id: String,
    pub name: String,
    pub location: Option<String>,
    /// Registration time, in nanoseconds since the Unix epoch.
    pub created_at: Option<i128>,
}

impl Camera {
    /// A field-by-field copy.
    pub fn copy(&self) -> (r: Camera)
        ensures
            r == *self,
    {
        Camera {
            id: self.id.clone(),
            name: self.name.clone(),
            location: copy_opt_string(&self.location),
            created_at: self.created_at,
        }
    }
}

/// The first camera of `cams`, from `i` on, with id `id`.
pub open spec fn camera_index_from(cams: Seq<Camera>, id: Seq<char>, i: int) -> Option<int>
    decreases cams.len() - i,
{
    if i >= cams.len() || i < 0 {
        None
    } else if cams[i].id@ == id {
        Some(i)
    } else {
        camera_index_from(cams, id, i + 1)
    }
}

/// The first camera of `cams` with id `id`.
pub open spec fn camera_index(cams: Seq<Camera>, id: Seq<char>) -> Option<int> {
    camera_index_from(cams, id, 0)
}

/// No two cameras of `cams` share an id.
pub open spec fn camera_ids_unique(cams: Seq<Camera>) -> bool {
    forall|i: int, j: int|
        0 <= i < cams.len() && 0 <= j < cams.len() && i != j ==> #[trigger] cams[i].id@ != #[trigger] cams[j].id@
}

/// Some camera of `cams` has id `id`.
pub open spec fn has_camera(cams: Seq<Camera>, id: Seq<char>) -> bool {
    exists|i: int| 0 <= i < cams.len() && #[trigger] cams[i].id@ == id
}

/// `cams` after saving `cam`: the first camera with its id takes its name and
/// location, or `cam` is appended.
pub open spec fn cameras_after_save(cams: Seq<Camera>, cam: Camera) -> Seq<Camera> {
    match camera_index(cams, cam.id@) {
        Some(i) => cams.update(i, Camera { name: cam.name, location: cam.location, ..cams[i] }),
        None => cams.push(cam),
    }
}

proof fn lemma_camera_index_from(cams: Seq<Camera>, id: Seq<char>, i: int)
    requires
        0 <= i <= cams.len(),
    ensures
        match camera_index_from(cams, id, i) {
            Some(k) => i <= k < cams.len() && cams[k].id@ == id && forall|j: int|
                i <= j < k ==> #[trigger] cams[j].id@ != id,
            None => forall|j: int| i <= j < cams.len() ==> #[trigger] cams[j].id@ != id,
        },
    decreases cams.len() - i,
{
    if i < cams.len() && cams[i].id@ != id {
        lemma_camera_index_from(cams, id, i + 1);
    }
}

/// The position of the first camera with id `id`.
pub fn find_camera(cams: &Vec<Camera>, id: &str) -> (r: Option<usize>)
    ensures
        match r {
            Some(i) => camera_index(cams@, id@) == Some(i as int),
            None => camera_index(cams@, id@) is None,
        },
{
    let mut i: usize = 0;
    while i < cams.len()
        invariant
            i <= cams@.len(),
            camera_index(cams@, id@) == camera_index_from(cams@, id@, i as int),
        decreases cams@.len() - i,
    {
        if crate::text::str_eq(cams[i].id.as_str(), id) {
            return Some(i);
        }
        i = i + 1;
    }
    None
}

/// Saves `cam`: updates the name and location of the camera with its id, or
/// registers it.
pub fn save_camera(cams: &mut Vec<Camera>, cam: Camera)
    ensures
        final(cams)@ == cameras_after_save(old(cams)@, cam),
{
    proof {
        lemma_camera_index_from(cams@, cam.id@, 0);
    }
    match find_camera(cams, cam.id.as_str()) {
        Some(i) => {
            let mut existing = cams[i].copy();
            existing.name = cam.name;
            existing.location = cam.location;
            cams.set(i, existing);
        },
        None => {
            cams.push(cam);
        },
    }
}

/// `cams` without the cameras of id `id`.
pub open spec fn cameras_without(cams: Seq<Camera>, id: Seq<char>) -> Seq<Camera> {
    cams.filter(|c: Camera| c.id@ != id)
}

/// Removes every camera of id `id`.
pub fn delete_camera(cams: &mut Vec<Camera>, id: &str)
    ensures
        final(cams)@ == cameras_without(old(cams)@, id@),
{
    let mut kept: Vec<Camera> = Vec::new();
    let mut i: usize = 0;
    while i < cams.len()
        invariant
            i <= cams@.len(),
            kept@ == cameras_without(cams@.take(i as int), id@),
        decreases cams@.len() - i,
    {
        let c = cams[i].copy();
        proof {
            assert(cams@.take(i + 1) =~= cams@.take(i as int).push(cams@[i as int]));
            cams@.take(i as int).lemma_filter_push(cams@[i as int], |c: Camera| c.id@ != id@);
        }
        if !crate::text::str_eq(c.id.as_str(), id) {
            kept.push(c);
        }
        i = i + 1;
    }
    assert(cams@.take(cams@.len() as int) =~= cams@);
    *cams = kept;
}

/// The name a camera is registered under when it first reports unannounced.
pub open spec fn auto_camera_name(id: Seq<char>) -> Seq<char> {
    "Auto Cam: "@ + id
}

/// Registers a camera that reported without being known, named "Auto Cam: "
/// and its id.
pub fn register_reporting_camera(cams: &mut Vec<Camera>, id: &str, now: Option<i128>)
    ensures
        has_camera(old(cams)@, id@) ==> final(cams)@ == old(cams)@,
        !has_camera(old(cams)@, id@) ==> {
            &&& final(cams)@.len() == old(cams)@.len() + 1
            &&& final(cams)@.take(old(cams)@.len() as int) == old(cams)@
            &&& final(cams)@.last().id@ == id@
            &&& final(cams)@.last().name@ == auto_camera_name(id@)
            &&& final(cams)@.last().location is None
            &&& final(cams)@.last().created_at == now
        },
{
    match find_camera(cams, id) {
        Some(_) => {
            proof {
                lemma_camera_index_from(cams@, id@, 0);
            }
        },
        None => {
            proof {
                lemma_camera_index_from(cams@, id@, 0);
            }
            let mut name = String::from_str("Auto Cam: ");
            name.append(id);
            let cam = Camera { id: String::from_str(id), name, location: None, created_at: now };
            cams.push(cam);
            assert(cams@.take(old(cams)@.len() as int) =~= old(cams)@);
        },
    }
}


// ---------------------------------------------------------------------------
// AI provider configurations
// ---------------------------------------------------------------------------

/// A stored AI provider configuration.
#[derive(Debug, Clone, PartialEq)]
pub struct AiConfig {
    pub id: u128,
    pub name: String,
    pub provider_type: String,
    pub api_key: Option<String>,
    pub model_name: Option<String>,
    pub is_active: bool,
    /// Creation time, in nanoseconds since the Unix epoch.
    pub created_at: Option<i128>,
}

impl AiConfig {
    /// A field-by-field copy.
    pub fn copy(&self) -> (r: AiConfig)
        ensures
            r == *self,
    {
        AiConfig {
            id: self.id,
            name: self.name.clone(),
            provider_type: self.provider_type.clone(),
            api_key: copy_opt_string(&self.api_key),
            model_name: copy_opt_string(&self.model_name),
            is_active: self.is_active,
            created_at: self.created_at,
        }
    }
}

/// The first configuration of `cfgs`, from `i` on, with id `id`.
pub open spec fn config_index_from(cfgs: Seq<AiConfig>, id: u128, i: int) -> Option<int>
    decreases cfgs.len() - i,
{
    if i >= cfgs.len() || i < 0 {
        None
    } else if cfgs[i].id == id {
        Some(i)
    } else {
        config_index_from(cfgs, id, i + 1)
    }
}

/// The first configuration of `cfgs` with id `id`.
pub open spec fn config_index(cfgs: Seq<AiConfig>, id: u128) -> Option<int> {
    config_index_from(cfgs, id, 0)
}

proof fn lemma_config_index_from(cfgs: Seq<AiConfig>, id: u128, i: int)
    requires
        0 <= i <= cfgs.len(),
    ensures
        match config_index_from(cfgs, id, i) {
            Some(k) => i <= k < cfgs.len() && cfgs[k].id == id && forall|j: int|
                i <= j < k ==> #[trigger] cfgs[j].id != id,
            None => forall|j: int| i <= j < cfgs.len() ==> #[trigger] cfgs[j].id != id,
        },
    decreases cfgs.len() - i,
{
    if i < cfgs.len() && cfgs[i].id != id {
        lemma_config_index_from(cfgs, id, i + 1);
    }
}

/// The position of the first configuration with id `id`.
pub fn find_config(cfgs: &Vec<AiConfig>, id: u128) -> (r: Option<usize>)
    ensures
        match r {
            Some(i) => config_index(cfgs@, id) == Some(i as int),
            None => config_index(cfgs@, id) is None,
        },
{
    let mut i: usize = 0;
    while i < cfgs.len()
        invariant
            i <= cfgs@.len(),
            config_index(cfgs@, id) == config_index_from(cfgs@, id, i as int),
        decreases cfgs@.len() - i,
    {
        if cfgs[i].id == id {
            return Some(i);
        }
        i = i + 1;
    }
    None
}

/// `c` with its active flag set to `active`.
pub open spec fn with_active(c: AiConfig, active: bool) -> AiConfig {
    AiConfig { is_active: active, ..c }
}

/// `cfgs` with every configuration inactive.
pub open spec fn all_inactive(cfgs: Seq<AiConfig>) -> Seq<AiConfig> {
    cfgs.map_values(|c: AiConfig| with_active(c, false))
}

/// `cfgs` with exactly the configurations of id `id` active.
pub open spec fn activated(cfgs: Seq<AiConfig>, id: u128) -> Seq<AiConfig> {
    cfgs.map_values(|c: AiConfig| with_active(c, c.id == id))
}

/// `cfgs` after saving `cfg`: if `cfg` is active every other configuration is
/// deactivated first; then the first configuration with its id takes its name,
/// provider, key, model and flag, or `cfg` is appended.
pub open spec fn configs_after_save(cfgs: Seq<AiConfig>, cfg: AiConfig) -> Seq<AiConfig> {
    let base = if cfg.is_active {
        all_inactive(cfgs)
    } else {
        cfgs
    };
    match config_index(base, cfg.id) {
        Some(i) => base.update(
            i,
            AiConfig {
                name: cfg.name,
                provider_type: cfg.provider_type,
                api_key: cfg.api_key,
                model_name: cfg.model_name,
                is_active: cfg.is_active,
                ..base[i]
            },
        ),
        None => base.push(cfg),
    }
}

/// Activates the configurations of id `id` and deactivates all others.
pub fn activate_config(cfgs: &mut Vec<AiConfig>, id: u128)
    ensures
        final(cfgs)@ == activated(old(cfgs)@, id),
{
    let mut i: usize = 0;
    while i < cfgs.len()
        invariant
            i <= cfgs@.len(),
            cfgs@.len() == old(cfgs)@.len(),
            forall|j: int| 0 <= j < i ==> #[trigger] cfgs@[j] == with_active(old(cfgs)@[j], old(cfgs)@[j].id == id),
            forall|j: int| i <= j < cfgs@.len() ==> #[trigger] cfgs@[j] == old(cfgs)@[j],
        decreases cfgs@.len() - i,
    {
        let mut c = cfgs[i].copy();
        c.is_active = c.id == id;
        cfgs.set(i, c);
        i = i + 1;
    }
    assert(cfgs@ =~= activated(old(cfgs)@, id));
}

fn deactivate_all(cfgs: &mut Vec<AiConfig>)
    ensures
        final(cfgs)@ == all_inactive(old(cfgs)@),
{
    let mut i: usize = 0;
    while i < cfgs.len()
        invariant
            i <= cfgs@.len(),
            cfgs@.len() == old(cfgs)@.len(),
            forall|j: int| 0 <= j < i ==> #[trigger] cfgs@[j] == with_active(old(cfgs)@[j], false),
            forall|j: int| i <= j < cfgs@.len() ==> #[trigger] cfgs@[j] == old(cfgs)@[j],
        decreases cfgs@.len() - i,
    {
        let mut c = cfgs[i].copy();
        c.is_active = false;
        cfgs.set(i, c);
        i = i + 1;
    }
    assert(cfgs@ =~= all_inactive(old(cfgs)@));
}

/// Saves `cfg`; an active one becomes the only active configuration.
pub fn save_config(cfgs: &mut Vec<AiConfig>, cfg: AiConfig)
    ensures
        final(cfgs)@ == configs_after_save(old(cfgs)@, cfg),
{
    if cfg.is_active {
        deactivate_all(cfgs);
    }
    proof {
        lemma_config_index_from(cfgs@, cfg.id, 0);
    }
    match find_config(cfgs, cfg.id) {
        Some(i) => {
            let mut existing = cfgs[i].copy();
            existing.name = cfg.name;
            existing.provider_type = cfg.provider_type;
            existing.api_key = cfg.api_key;
            existing.model_name = cfg.model_name;
            existing.is_active = cfg.is_active;
            cfgs.set(i, existing);
        },
        None => {
            cfgs.push(cfg);
        },
    }
}

/// `cfgs` without the configurations of id `id`.
pub open spec fn configs_without(cfgs: Seq<AiConfig>, id: u128) -> Seq<AiConfig> {
    cfgs.filter(|c: AiConfig| c.id != id)
}

/// Removes every configuration of id `id`.
pub fn delete_config(cfgs: &mut Vec<AiConfig>, id: u128)
    ensures
        final(cfgs)@ == configs_without(old(cfgs)@, id),
{
    let mut kept: Vec<AiConfig> = Vec::new();
    let mut i: usize = 0;
    while i < cfgs.len()
        invariant
            i <= cfgs@.len(),
            kept@ == configs_without(cfgs@.take(i as int), id),
        decreases cfgs@.len() - i,
    {
        let c = cfgs[i].copy();
        proof {
            assert(cfgs@.take(i + 1) =~= cfgs@.take(i as int).push(cfgs@[i as int]));
            cfgs@.take(i as int).lemma_filter_push(cfgs@[i as int], |c: AiConfig| c.id != id);
        }
        if c.id != id {
            kept.push(c);
        }
        i = i + 1;
    }
    assert(cfgs@.take(cfgs@.len() as int) =~= cfgs@);
    *cfgs = kept;
}

/// The first active configuration of `cfgs`, from `i` on.
pub open spec fn active_index_from(cfgs: Seq<AiConfig>, i: int) -> Option<int>
    decreases cfgs.len() - i,
{
    if i >= cfgs.len() || i < 0 {
        None
    } else if cfgs[i].is_active {
        Some(i)
    } else {
        active_index_from(cfgs, i + 1)
    }
}

/// A copy of the first active configuration.
pub fn active_config(cfgs: &Vec<AiConfig>) -> (r: Option<AiConfig>)
    ensures
        match active_index_from(cfgs@, 0) {
            Some(i) => r == Some(cfgs@[i]),
            None => r is None,
        },
{
    let mut i: usize = 0;
    while i < cfgs.len()
        invariant
            i <= cfgs@.len(),
            active_index_from(cfgs@, 0) == active_index_from(cfgs@, i as int),
        decreases cfgs@.len() - i,
    {
        if cfgs[i].is_active {
            return Some(cfgs[i].copy());
        }
        i = i + 1;
    }
    None
}

// ---------------------------------------------------------------------------
// API keys
// ---------------------------------------------------------------------------

/// `needle` occurs in `text`.
pub open spec fn has_infix(text: Seq<char>, needle: Seq<char>) -> bool {
    crate::plate_check::contains_chars(text, needle)
}

/// A key that was shown masked: it holds "[masked]" or a `*`.
pub open spec fn key_is_masked(key: Option<String>) -> bool {
    match key {
        Some(k) => has_infix(k@, "[masked]"@) || k@.contains('*'),
        None => false,
    }
}

/// Whether a submitted key is a masked one that stands for the stored key.
pub fn is_masked(key: &Option<String>) -> (r: bool)
    ensures
        r == key_is_masked(*key),
{
    match key {
        Some(k) => {
            let chars = chars_of(k.as_str());
            let marker = chars_of("[masked]");
            if crate::plate_check::contains_chars_exec(chars.as_slice(), marker.as_slice()) {
                return true;
            }
            let star = vec!['*'];
            let found = crate::plate_check::contains_chars_exec(chars.as_slice(), star.as_slice());
            proof {
                if found {
                    let i = choose|i: int|
                        0 <= i && i + 1 <= chars@.len() && #[trigger] chars@.subrange(i, i + 1) == star@;
                    assert(chars@[i] == chars@.subrange(i, i + 1)[0]);
                }
                if k@.contains('*') {
                    let i = choose|i: int| 0 <= i < k@.len() && k@[i] == '*';
                    assert(chars@.subrange(i, i + 1) =~= star@);
                }
            }
            found
        },
        None => false,
    }
}

/// The key to store for a submitted configuration: the key already stored
/// under its id when the submitted one is masked, else the submitted one.
pub open spec fn resolved_key(submitted: Option<String>, id: u128, stored: Seq<AiConfig>) -> Option<String> {
    if key_is_masked(submitted) {
        match config_index(stored, id) {
            Some(i) => stored[i].api_key,
            None => submitted,
        }
    } else {
        submitted
    }
}

/// Resolves a submitted key against the stored configurations.
pub fn resolve_api_key(submitted: Option<String>, id: u128, stored: &Vec<AiConfig>) -> (r: Option<String>)
    ensures
        r == resolved_key(submitted, id, stored@),
{
    if is_masked(&submitted) {
        proof {
            lemma_config_index_from(stored@, id, 0);
        }
        match find_config(stored, id) {
            Some(i) => copy_opt_string(&stored[i].api_key),
            None => submitted,
        }
    } else {
        submitted
    }
}

/// How a key is shown: its first six bytes then "...[masked]" when it is
/// longer than six bytes, else "...[masked]" alone.
pub open spec fn masked_key(k: Seq<char>) -> Seq<char> {
    if utf8_len(k) > 6 {
        k.take(byte_prefix_chars(k, 6)->0) + "...[masked]"@
    } else {
        "...[masked]"@
    }
}

/// A key can be shown: it is at most six bytes long or its sixth byte ends a character.
pub open spec fn key_maskable(k: Seq<char>) -> bool {
    utf8_len(k) <= 6 || byte_prefix_chars(k, 6) is Some
}

/// The masked form of a key.
pub fn mask_key(key: &String) -> (r: String)
    requires
        key_maskable(key@),
    ensures
        r@ == masked_key(key@),
{
    let chars = chars_of(key.as_str());
    if utf8_length(chars.as_slice()) > 6 {
        match chars_in_byte_prefix(chars.as_slice(), 6) {
            Some(i) => {
                let head = slice_chars(chars.as_slice(), 0, i);
                let mut r = string_of(&head);
                r.append("...[masked]");
                r
            },
            None => String::from_str("...[masked]"),
        }
    } else {
        String::from_str("...[masked]")
    }
}

/// `c` as it is shown: its key masked.
pub open spec fn shown_config(c: AiConfig, shown_key: Option<Seq<char>>) -> bool {
    match (c.api_key, shown_key) {
        (Some(k), Some(s)) => s == masked_key(k@),
        (None, None) => true,
        _ => false,
    }
}

/// Masks the key of `cfg` for display.
pub fn mask_config_key(cfg: &mut AiConfig)
    requires
        old(cfg).api_key matches Some(k) ==> key_maskable(k@),
    ensures
        final(cfg).id == old(cfg).id,
        final(cfg).name == old(cfg).name,
        final(cfg).provider_type == old(cfg).provider_type,
        final(cfg).model_name == old(cfg).model_name,
        final(cfg).is_active == old(cfg).is_active,
        final(cfg).created_at == old(cfg).created_at,
        shown_config(*old(cfg), crate::config::opt_str_view(final(cfg).api_key)),
{
    let shown = match &cfg.api_key {
        Some(k) => Some(mask_key(k)),
        None => None,
    };
    cfg.api_key = shown;
}


// ---------------------------------------------------------------------------
// Events
// ---------------------------------------------------------------------------

/// A processed camera image and what was read from it.
#[derive(Debug, Clone, PartialEq)]
pub struct ProcessedEvent {
    pub id: u128,
    pub camera_id: Option<String>,
    pub image_path: String,
    pub raw_ai_text: Option<String>,
    pub is_plate_valid: Option<bool>,
    pub detected_plate_text: Option<String>,
    pub vehicle_class: Option<String>,
    pub district: Option<String>,
    pub metro_prefix: Option<bool>,
    pub plate_number: Option<String>,
    /// Processing time, in nanoseconds since the Unix epoch.
    pub created_at: Option<i128>,
}

impl ProcessedEvent {
    /// A field-by-field copy.
    pub fn copy(&self) -> (r: ProcessedEvent)
        ensures
            r == *self,
    {
        ProcessedEvent {
            id: self.id,
            camera_id: copy_opt_string(&self.camera_id),
            image_path: self.image_path.clone(),
            raw_ai_text: copy_opt_string(&self.raw_ai_text),
            is_plate_valid: self.is_plate_valid,
            detected_plate_text: copy_opt_string(&self.detected_plate_text),
            vehicle_class: copy_opt_string(&self.vehicle_class),
            district: copy_opt_string(&self.district),
            metro_prefix: self.metro_prefix,
            plate_number: copy_opt_string(&self.plate_number),
            created_at: self.created_at,
        }
    }
}

/// The number of recent events kept in memory.
pub const EVENT_CACHE_LIMIT: usize = 50;

/// `events` after recording `e`: `e` appended, and the oldest event dropped
/// when more than the limit would be kept.
pub open spec fn events_after_record(events: Seq<ProcessedEvent>, e: ProcessedEvent) -> Seq<ProcessedEvent> {
    let s = events.push(e);
    if s.len() > EVENT_CACHE_LIMIT {
        s.drop_first()
    } else {
        s
    }
}

/// Records a processed event, keeping at most the limit of recent events.
pub fn record_event(events: &mut Vec<ProcessedEvent>, e: ProcessedEvent)
    ensures
        final(events)@ == events_after_record(old(events)@, e),
{
    events.push(e);
    if events.len() > EVENT_CACHE_LIMIT {
        events.remove(0);
        assert(events@ =~= old(events)@.push(e).drop_first());
    }
}

/// The recorded events, newest first.
pub fn events_newest_first(events: &Vec<ProcessedEvent>) -> (r: Vec<ProcessedEvent>)
    ensures
        r@ == events@.reverse(),
{
    let mut r: Vec<ProcessedEvent> = Vec::new();
    let mut i: usize = events.len();
    while i > 0
        invariant
            i <= events@.len(),
            r@ == events@.subrange(i as int, events@.len() as int).reverse(),
        decreases i,
    {
        i = i - 1;
        r.push(events[i].copy());
        assert(r@ =~= events@.subrange(i as int, events@.len() as int).reverse());
    }
    assert(events@.subrange(0, events@.len() as int) =~= events@);
    r
}


// ---------------------------------------------------------------------------
// Laws
// ---------------------------------------------------------------------------

/// Saving a camera makes it the camera found under its id, with the saved name
/// and location; cameras of other ids are untouched, and ids stay unique.
pub proof fn law_saved_camera_is_found(cams: Seq<Camera>, cam: Camera)
    ensures
        camera_index(cameras_after_save(cams, cam), cam.id@) matches Some(i) && {
            &&& cameras_after_save(cams, cam)[i].name == cam.name
            &&& cameras_after_save(cams, cam)[i].location == cam.location
        },
        forall|j: int|
            0 <= j < cams.len() && cams[j].id@ != cam.id@ ==> #[trigger] cameras_after_save(cams, cam)[j]
                == cams[j],
        camera_ids_unique(cams) ==> camera_ids_unique(cameras_after_save(cams, cam)),
{
    let after = cameras_after_save(cams, cam);
    lemma_camera_index_from(cams, cam.id@, 0);
    lemma_camera_index_from(after, cam.id@, 0);
    match camera_index(cams, cam.id@) {
        Some(i) => {
            assert(after[i].id@ == cam.id@);
        },
        None => {
            assert(after[cams.len() as int].id@ == cam.id@);
            if camera_ids_unique(cams) {
                assert forall|i: int, j: int|
                    0 <= i < after.len() && 0 <= j < after.len() && i != j implies #[trigger] after[i].id@
                    != #[trigger] after[j].id@ by {
                    if i < cams.len() && j < cams.len() {
                    } else if i == cams.len() {
                        assert(cams[j].id@ != cam.id@);
                    } else {
                        assert(cams[i].id@ != cam.id@);
                    }
                }
            }
        },
    }
}

/// Deleting the cameras of an id leaves none with it, and keeps ids unique.
pub proof fn law_deleted_camera_is_gone(cams: Seq<Camera>, id: Seq<char>)
    ensures
        !has_camera(cameras_without(cams, id), id),
        forall|c: Camera| cams.contains(c) && c.id@ != id ==> cameras_without(cams, id).contains(c),
{
    let pred = |c: Camera| c.id@ != id;
    let after = cams.filter(pred);
    assert forall|i: int| 0 <= i < after.len() implies #[trigger] after[i].id@ != id by {
        cams.lemma_filter_pred(pred, i);
    }
    assert forall|c: Camera| cams.contains(c) && c.id@ != id implies after.contains(c) by {
        let i = choose|i: int| 0 <= i < cams.len() && cams[i] == c;
        cams.lemma_filter_contains(pred, i);
    }
}

/// `after` is `before` once a camera of id `id` reported at time `now`: unchanged
/// if it was known, else with the automatically named camera appended.
pub open spec fn reported(before: Seq<Camera>, after: Seq<Camera>, id: Seq<char>, now: Option<i128>) -> bool {
    if has_camera(before, id) {
        after == before
    } else {
        &&& after.len() == before.len() + 1
        &&& after.take(before.len() as int) == before
        &&& after.last().id@ == id
        &&& after.last().name@ == auto_camera_name(id)
        &&& after.last().location is None
        &&& after.last().created_at == now
    }
}

/// A camera that reported is known afterwards, and a second report changes
/// nothing.
pub proof fn law_reporting_camera_registered_once(
    a: Seq<Camera>,
    b: Seq<Camera>,
    c: Seq<Camera>,
    id: Seq<char>,
    now1: Option<i128>,
    now2: Option<i128>,
)
    requires
        reported(a, b, id, now1),
        reported(b, c, id, now2),
    ensures
        has_camera(b, id),
        c == b,
{
    if !has_camera(a, id) {
        assert(b[b.len() - 1].id@ == id);
    }
}

/// Activating an id leaves exactly the configurations of that id active; with
/// unique ids at most one configuration is active.
pub proof fn law_activation_selects_one(cfgs: Seq<AiConfig>, id: u128)
    ensures
        forall|i: int| 0 <= i < cfgs.len() ==> (#[trigger] activated(cfgs, id)[i].is_active <==> cfgs[i].id == id),
        (forall|i: int, j: int| 0 <= i < cfgs.len() && 0 <= j < cfgs.len() && i != j ==> #[trigger] cfgs[i].id != #[trigger] cfgs[j].id)
            ==> forall|i: int, j: int|
            0 <= i < cfgs.len() && 0 <= j < cfgs.len() && #[trigger] activated(cfgs, id)[i].is_active
                && #[trigger] activated(cfgs, id)[j].is_active ==> i == j,
{
}

proof fn lemma_active_index_from(cfgs: Seq<AiConfig>, i: int, k: int)
    requires
        0 <= i <= k < cfgs.len(),
        cfgs[k].is_active,
        forall|j: int| i <= j < cfgs.len() && j != k ==> !(#[trigger] cfgs[j].is_active),
    ensures
        active_index_from(cfgs, i) == Some(k),
    decreases k - i,
{
    if i < k {
        lemma_active_index_from(cfgs, i + 1, k);
    }
}

/// After an active configuration is saved, the configuration the provider
/// lookup finds is the saved one, with its name, provider, key and model.
pub proof fn law_saved_active_config_is_used(cfgs: Seq<AiConfig>, cfg: AiConfig)
    requires
        cfg.is_active,
    ensures
        active_index_from(configs_after_save(cfgs, cfg), 0) matches Some(i) && {
            let c = configs_after_save(cfgs, cfg)[i];
            &&& c.id == cfg.id
            &&& c.name == cfg.name
            &&& c.provider_type == cfg.provider_type
            &&& c.api_key == cfg.api_key
            &&& c.model_name == cfg.model_name
            &&& c.is_active
        },
{
    let base = all_inactive(cfgs);
    let after = configs_after_save(cfgs, cfg);
    lemma_config_index_from(base, cfg.id, 0);
    match config_index(base, cfg.id) {
        Some(i) => {
            lemma_active_index_from(after, 0, i);
        },
        None => {
            lemma_active_index_from(after, 0, cfgs.len() as int);
        },
    }
}

proof fn lemma_config_index_same_ids(a: Seq<AiConfig>, b: Seq<AiConfig>, id: u128, i: int)
    requires
        0 <= i <= a.len(),
        a.len() == b.len(),
        forall|j: int| 0 <= j < a.len() ==> #[trigger] a[j].id == b[j].id,
    ensures
        config_index_from(a, id, i) == config_index_from(b, id, i),
    decreases a.len() - i,
{
    if i < a.len() {
        lemma_config_index_same_ids(a, b, id, i + 1);
    }
}

/// Saving a configuration stores it: the first configuration under its id then
/// carries the saved name, provider, key, model and active flag, whether the
/// saved one is active or not. A configuration already stored under that id
/// keeps its place and its creation time, and nothing is added; saving an
/// inactive configuration leaves every other configuration as it was.
pub proof fn law_saved_config_is_stored(cfgs: Seq<AiConfig>, cfg: AiConfig)
    ensures
        config_index(configs_after_save(cfgs, cfg), cfg.id) matches Some(i) && {
            let c = configs_after_save(cfgs, cfg)[i];
            &&& c.id == cfg.id
            &&& c.name == cfg.name
            &&& c.provider_type == cfg.provider_type
            &&& c.api_key == cfg.api_key
            &&& c.model_name == cfg.model_name
            &&& c.is_active == cfg.is_active
            &&& config_index(cfgs, cfg.id) matches Some(j) ==> {
                &&& i == j
                &&& c.created_at == cfgs[j].created_at
                &&& configs_after_save(cfgs, cfg).len() == cfgs.len()
                &&& !cfg.is_active ==> forall|m: int|
                    0 <= m < cfgs.len() && m != j ==> #[trigger] configs_after_save(cfgs, cfg)[m] == cfgs[m]
            }
        },
{
    let base = if cfg.is_active {
        all_inactive(cfgs)
    } else {
        cfgs
    };
    let after = configs_after_save(cfgs, cfg);
    assert forall|j: int| 0 <= j < cfgs.len() implies #[trigger] base[j].id == cfgs[j].id by {}
    lemma_config_index_same_ids(base, cfgs, cfg.id, 0);
    lemma_config_index_from(base, cfg.id, 0);
    match config_index(base, cfg.id) {
        Some(i) => {
            assert forall|j: int| 0 <= j < after.len() implies #[trigger] after[j].id == base[j].id by {}
            lemma_config_index_same_ids(after, base, cfg.id, 0);
        },
        None => {
            lemma_config_index_from(after, cfg.id, 0);
            assert(after[base.len() as int] == cfg);
            assert forall|j: int| 0 <= j < base.len() implies #[trigger] after[j].id != cfg.id by {
                assert(after[j] == base[j]);
            }
            lemma_config_index_from(after, cfg.id, 0);
        },
    }
}

/// No two configurations of `cfgs` share an id.
pub open spec fn config_ids_unique(cfgs: Seq<AiConfig>) -> bool {
    forall|i: int, j: int|
        0 <= i < cfgs.len() && 0 <= j < cfgs.len() && i != j ==> #[trigger] cfgs[i].id != #[trigger] cfgs[j].id
}

/// Saving a configuration keeps configuration ids unique, and then at most
/// one configuration is active after an active one was saved.
pub proof fn law_config_ids_stay_unique(cfgs: Seq<AiConfig>, cfg: AiConfig)
    requires
        config_ids_unique(cfgs),
    ensures
        config_ids_unique(configs_after_save(cfgs, cfg)),
        cfg.is_active ==> forall|i: int|
            0 <= i < configs_after_save(cfgs, cfg).len() && #[trigger] configs_after_save(cfgs, cfg)[i].is_active
                ==> configs_after_save(cfgs, cfg)[i].id == cfg.id,
{
    let base = if cfg.is_active {
        all_inactive(cfgs)
    } else {
        cfgs
    };
    let after = configs_after_save(cfgs, cfg);
    assert(base.len() == cfgs.len());
    assert(forall|i: int| 0 <= i < base.len() ==> #[trigger] base[i].id == cfgs[i].id);
    lemma_config_index_from(base, cfg.id, 0);
    assert forall|i: int, j: int|
        0 <= i < after.len() && 0 <= j < after.len() && i != j implies #[trigger] after[i].id
        != #[trigger] after[j].id by {
        if i < cfgs.len() && j < cfgs.len() {
            assert(after[i].id == cfgs[i].id);
            assert(after[j].id == cfgs[j].id);
        } else if i == cfgs.len() {
            assert(after[j].id == cfgs[j].id);
        } else {
            assert(after[i].id == cfgs[i].id);
        }
    }
}

/// Reports of cameras keep camera ids unique.
pub proof fn law_reports_keep_camera_ids_unique(a: Seq<Camera>, b: Seq<Camera>, id: Seq<char>, now: Option<i128>)
    requires
        camera_ids_unique(a),
        reported(a, b, id, now),
    ensures
        camera_ids_unique(b),
{
    if !has_camera(a, id) {
        assert forall|i: int, j: int|
            0 <= i < b.len() && 0 <= j < b.len() && i != j implies #[trigger] b[i].id@ != #[trigger] b[j].id@ by {
            if i < a.len() && j < a.len() {
                assert(b[i] == b.take(a.len() as int)[i]);
                assert(b[j] == b.take(a.len() as int)[j]);
            } else if i == a.len() {
                assert(b[j] == b.take(a.len() as int)[j]);
                assert(a[j].id@ != id);
            } else {
                assert(b[i] == b.take(a.len() as int)[i]);
                assert(a[i].id@ != id);
            }
        }
    }
}

/// Deleting the configurations of an id leaves none with it.
pub proof fn law_deleted_config_is_gone(cfgs: Seq<AiConfig>, id: u128)
    ensures
        forall|i: int| 0 <= i < configs_without(cfgs, id).len() ==> #[trigger] configs_without(cfgs, id)[i].id != id,
{
    let pred = |c: AiConfig| c.id != id;
    assert forall|i: int| 0 <= i < cfgs.filter(pred).len() implies #[trigger] cfgs.filter(pred)[i].id != id by {
        cfgs.lemma_filter_pred(pred, i);
    }
}

/// The in-memory event log never grows beyond its limit, and the event just
/// recorded is the newest: last in the log and first when listed.
pub proof fn law_event_log_is_bounded(events: Seq<ProcessedEvent>, e: ProcessedEvent)
    requires
        events.len() <= EVENT_CACHE_LIMIT,
    ensures
        events_after_record(events, e).len() <= EVENT_CACHE_LIMIT,
        events_after_record(events, e).last() == e,
        events_after_record(events, e).reverse()[0] == e,
{
}

/// A key shown masked reveals at most its first six bytes, is recognised as
/// masked, and submitted back for its configuration keeps the stored key.
pub proof fn law_masked_key_round_trip(stored: Seq<AiConfig>, id: u128, shown: String)
    requires
        config_index(stored, id) matches Some(i) && stored[i].api_key matches Some(k) && key_maskable(k@)
            && shown@ == masked_key(k@),
    ensures
        key_is_masked(Some(shown)),
        config_index(stored, id) matches Some(i) && resolved_key(Some(shown), id, stored) == stored[i].api_key,
        config_index(stored, id) matches Some(i) && stored[i].api_key matches Some(k) && (utf8_len(k@) > 6
            ==> shown@ == k@.take(byte_prefix_chars(k@, 6)->0) + "...[masked]"@ && utf8_len(
            k@.take(byte_prefix_chars(k@, 6)->0),
        ) == 6),
{
    reveal_strlit("...[masked]");
    reveal_strlit("[masked]");
    let i = config_index(stored, id)->0;
    let k = stored[i].api_key->0;
    let tail = "...[masked]"@;
    let marker = "[masked]"@;
    let head = if utf8_len(k@) > 6 {
        k@.take(byte_prefix_chars(k@, 6)->0)
    } else {
        Seq::empty()
    };
    assert(shown@ =~= head + tail);
    let at: int = head.len() as int + 3;
    assert(shown@.subrange(at, at + marker.len()) =~= marker);
    if utf8_len(k@) > 6 {
        let j = choose|j: int| 0 <= j <= k@.len() && #[trigger] utf8_len(k@.take(j)) == 6;
        assert(byte_prefix_chars(k@, 6) == Some(j));
    }
}

} // verus!
