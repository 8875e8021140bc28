//! Reading and patching the sidecar text, and the decisions of one
//! synchronisation step.
use vstd::prelude::*;
use vstd::string::*;
use crate::fragment::{block, build_fragment, fragment_text};
use crate::record::{decode_geo_record, record_fields, GeoFields, GeoRecord, GpsTags};
use crate::text::{
    chars_of, contains_str, contains_text, find_first, is_first_occurrence, occurs_at,
};

verus! {

/// The closing tag before whose line the fragment goes.
pub const ANCHOR: &'static str = "</rdf:Description>";

/// Text that only a sidecar with a geolocation block holds.
pub const GEO_MARKER: &'static str = "GPSLatitude rdf:parseType";

/// The sidecar already holds a geolocation block.
pub open spec fn has_geo_block(t: Seq<char>) -> bool {
    contains_text(t, GEO_MARKER@)
}

/// Whether the sidecar text already holds a geolocation block.
pub fn sidecar_has_geo_block(text: &str) -> (r: bool)
    ensures
        r == has_geo_block(text@),
{
    contains_str(text, GEO_MARKER)
}

/// The start of the line holding position `k`: just after the last line
/// break before `k`, or 0 where there is none.
pub open spec fn line_start_of(t: Seq<char>, k: int) -> int
    decreases k,
{
    if k <= 0 {
        0
    } else if t[k - 1] == '\n' {
        k
    } else {
        line_start_of(t, k - 1)
    }
}

/// `t` with `ins` inserted at `at`.
pub open spec fn insert_at(t: Seq<char>, at: int, ins: Seq<char>) -> Seq<char> {
    t.subrange(0, at) + ins + t.subrange(at, t.len() as int)
}

/// The sidecar text with the fragment for `r` inserted as new lines at the
/// start of the line of the first anchor; `None` where there is no anchor.
pub open spec fn patched_text(t: Seq<char>, r: GeoFields) -> Option<Seq<char>> {
    if contains_text(t, ANCHOR@) {
        let a = choose|a: int| is_first_occurrence(t, ANCHOR@, a);
        Some(insert_at(t, line_start_of(t, a), fragment_text(r)))
    } else {
        None
    }
}

/// Why a sidecar could not be patched.
#[derive(Clone, Copy, Debug, PartialEq, Eq, Structural)]
pub enum PatchError {
    /// The sidecar holds no closing tag to insert before.
    MissingAnchor,
}

proof fn lemma_first_occurrence_unique(t: Seq<char>, p: Seq<char>, i: int, j: int)
    requires
        is_first_occurrence(t, p, i),
        is_first_occurrence(t, p, j),
    ensures
        i == j,
{
}

fn line_start(t: &Vec<char>, k: usize) -> (r: usize)
    requires
        k <= t@.len(),
    ensures
        r == line_start_of(t@, k as int),
        r <= k,
{
    let mut j: usize = k;
    while j > 0
        invariant
            j <= k <= t@.len(),
            line_start_of(t@, j as int) == line_start_of(t@, k as int),
        decreases j,
    {
        if t[j - 1] == '\n' {
            return j;
        }
        j = j - 1;
    }
    0
}

/// Inserts the fragment for `rec` into the sidecar text.
pub fn patch_sidecar(text: &str, rec: &GeoRecord) -> (r: Result<String, PatchError>)
    ensures
        match r {
            Ok(s) => patched_text(text@, rec@) == Some(s@),
            Err(e) => e == PatchError::MissingAnchor && patched_text(text@, rec@) is None,
        },
{
    let t = chars_of(text);
    let anchor = chars_of(ANCHOR);
    match find_first(&t, &anchor) {
        None => Err(PatchError::MissingAnchor),
        Some(a) => {
            let at = line_start(&t, a);
            let frag = build_fragment(rec);
            let mut out = String::new();
            out.append(text.substring_char(0, at));
            out.append(frag.as_str());
            out.append(text.substring_char(at, t.len()));
            proof {
                let c = choose|c: int| is_first_occurrence(t@, ANCHOR@, c);
                lemma_first_occurrence_unique(t@, ANCHOR@, a as int, c);
            }
            Ok(out)
        },
    }
}

/// Where an image/sidecar pair stands.
#[derive(Clone, Copy, Debug, PartialEq, Eq, Structural)]
pub enum SyncState {
    /// The image has GPS data and the sidecar has no geolocation block.
    NeedsWrite,
    /// Neither has geolocation data.
    NoGeoData,
    /// Both have it.
    InSync,
    /// The sidecar has a geolocation block and the image has no GPS data.
    SidecarOnly,
}

pub open spec fn sync_state_of(sidecar_has_block: bool, image_has_geo: bool) -> SyncState {
    if !sidecar_has_block {
        if image_has_geo {
            SyncState::NeedsWrite
        } else {
            SyncState::NoGeoData
        }
    } else if image_has_geo {
        SyncState::InSync
    } else {
        SyncState::SidecarOnly
    }
}

/// Classifies a pair by its two presence tests.
pub fn classify(sidecar_has_block: bool, image_has_geo: bool) -> (r: SyncState)
    ensures
        r == sync_state_of(sidecar_has_block, image_has_geo),
{
    if !sidecar_has_block {
        if image_has_geo {
            SyncState::NeedsWrite
        } else {
            SyncState::NoGeoData
        }
    } else if image_has_geo {
        SyncState::InSync
    } else {
        SyncState::SidecarOnly
    }
}

/// The run's configuration.
#[derive(Clone, Copy, Debug, PartialEq, Eq, Structural)]
pub struct SyncOptions {
    /// Patch sidecars; when off, only list what would be done.
    pub write_enabled: bool,
    /// Report pairs that need nothing too, not only those to act on.
    pub show_everything: bool,
    /// Keep the sidecar's first content under a backup name.
    pub backup_original: bool,
}

/// What one synchronisation step does for a pair.
#[derive(Clone, Copy, Debug, PartialEq, Eq, Structural)]
pub struct SyncPlan {
    pub state: SyncState,
    /// The pair is shown to the user.
    pub report: bool,
    /// The image's GPS tags are encoded.
    pub decode: bool,
    /// The sidecar is patched and written.
    pub patch: bool,
}

/// The plan for a pair in `state`; `has_coordinates` says that the image
/// holds both a latitude and a longitude, without which nothing is patched.
pub open spec fn plan_of(state: SyncState, has_coordinates: bool, opts: SyncOptions) -> SyncPlan {
    SyncPlan {
        state,
        report: state == SyncState::NeedsWrite || opts.show_everything,
        decode: state == SyncState::NeedsWrite || ((state == SyncState::InSync || state
            == SyncState::SidecarOnly) && opts.show_everything),
        patch: state == SyncState::NeedsWrite && has_coordinates && opts.write_enabled,
    }
}

/// Decides what to do for a pair in `state`.
pub fn plan_sync(state: SyncState, has_coordinates: bool, opts: &SyncOptions) -> (r: SyncPlan)
    ensures
        r == plan_of(state, has_coordinates, *opts),
{
    let needs_write = state == SyncState::NeedsWrite;
    let has_block = state == SyncState::InSync || state == SyncState::SidecarOnly;
    SyncPlan {
        state,
        report: needs_write || opts.show_everything,
        decode: needs_write || (has_block && opts.show_everything),
        patch: needs_write && has_coordinates && opts.write_enabled,
    }
}

/// The plan for a sidecar text and an image's tags.
pub open spec fn sync_plan_for(t: Seq<char>, tags: GpsTags, opts: SyncOptions) -> SyncPlan {
    plan_of(
        sync_state_of(has_geo_block(t), tags.has_version),
        tags.latitude is Some && tags.longitude is Some,
        opts,
    )
}

/// The sidecar text after one step: patched where the plan says so, else
/// unchanged; `None` where a patch was due and failed.
pub open spec fn synced_text(t: Seq<char>, tags: GpsTags, opts: SyncOptions) -> Option<Seq<char>> {
    if sync_plan_for(t, tags, opts).patch {
        patched_text(t, record_fields(tags))
    } else {
        Some(t)
    }
}

/// The result of one synchronisation step.
#[derive(Debug)]
pub struct SyncOutcome {
    pub plan: SyncPlan,
    /// The encoded tags, where the plan decodes them.
    pub record: Option<GeoRecord>,
    /// The text to write back, where the plan patches.
    pub new_text: Option<String>,
}

/// One synchronisation step for a sidecar text and its image's tags.
pub fn sync_sidecar(text: &str, tags: &GpsTags, opts: &SyncOptions) -> (r: Result<
    SyncOutcome,
    PatchError,
>)
    ensures
        match r {
            Ok(o) => {
                &&& o.plan == sync_plan_for(text@, *tags, *opts)
                &&& (o.record is Some <==> o.plan.decode)
                &&& (o.record matches Some(rec) ==> rec@ == record_fields(*tags))
                &&& (o.new_text is Some <==> o.plan.patch)
                &&& (o.new_text matches Some(s) ==> synced_text(text@, *tags, *opts) == Some(s@))
            },
            Err(e) => {
                &&& e == PatchError::MissingAnchor
                &&& sync_plan_for(text@, *tags, *opts).patch
                &&& synced_text(text@, *tags, *opts) is None
            },
        },
{
    let state = classify(sidecar_has_geo_block(text), tags.has_version);
    let has_coordinates = tags.latitude.is_some() && tags.longitude.is_some();
    let plan = plan_sync(state, has_coordinates, opts);
    if !plan.decode {
        return Ok(SyncOutcome { plan, record: None, new_text: None });
    }
    let rec = decode_geo_record(tags);
    if !plan.patch {
        return Ok(SyncOutcome { plan, record: Some(rec), new_text: None });
    }
    match patch_sidecar(text, &rec) {
        Ok(s) => Ok(SyncOutcome { plan, record: Some(rec), new_text: Some(s) }),
        Err(e) => Err(e),
    }
}

proof fn lemma_occurs_in_context(a: Seq<char>, x: Seq<char>, b: Seq<char>, m: Seq<char>, i: int)
    requires
        occurs_at(x, m, i),
    ensures
        occurs_at(a + x + b, m, a.len() + i),
{
    assert((a + x + b).subrange(a.len() + i, a.len() + i + m.len()) =~= x.subrange(i, i + m.len()));
}

proof fn lemma_fragment_has_marker(r: GeoFields)
    ensures
        has_geo_block(fragment_text(r)),
{
    reveal_strlit("         <ast:");
    reveal_strlit("GPSLatitude");
    reveal_strlit(" rdf:parseType=\"Resource\">\n            <rdf:value>");
    reveal_strlit("GPSLatitude rdf:parseType");
    let lat = block("GPSLatitude"@, r.latitude, "Double"@);
    assert(lat.subrange(14, 39) =~= GEO_MARKER@);
    assert(occurs_at(lat, GEO_MARKER@, 14));
    let before = block("GPSVersionID"@, "AgIAAA=="@, "Binary"@) + block(
        "GPSLatitudeRef"@,
        r.latitude_ref,
        "Long"@,
    );
    let after = fragment_text(r).subrange((before.len() + lat.len()) as int, fragment_text(r).len() as int);
    assert(fragment_text(r) =~= before + lat + after);
    lemma_occurs_in_context(before, lat, after, GEO_MARKER@, 14);
}

/// A second step on what the first one wrote changes nothing: the patched
/// sidecar holds a geolocation block, so no second one is inserted.
pub proof fn lemma_sync_idempotent(t: Seq<char>, tags: GpsTags, opts: SyncOptions, t1: Seq<char>)
    requires
        synced_text(t, tags, opts) == Some(t1),
    ensures
        synced_text(t1, tags, opts) == Some(t1),
{
    if sync_plan_for(t, tags, opts).patch {
        let r = record_fields(tags);
        let k = choose|k: int| occurs_at(t, ANCHOR@, k);
        lemma_first_occurrence_exists(t, ANCHOR@, k);
        let a = choose|a: int| is_first_occurrence(t, ANCHOR@, a);
        let at = line_start_of(t, a);
        lemma_line_start_bounds(t, a);
        lemma_fragment_has_marker(r);
        let f = fragment_text(r);
        let i = choose|i: int| occurs_at(f, GEO_MARKER@, i);
        lemma_occurs_in_context(t.subrange(0, at), f, t.subrange(at, t.len() as int), GEO_MARKER@, i);
        assert(has_geo_block(t1));
    }
}

/// The sidecar text after `n` steps with the same tags and options.
pub open spec fn synced_text_n(t: Seq<char>, tags: GpsTags, opts: SyncOptions, n: nat) -> Option<
    Seq<char>,
>
    decreases n,
{
    if n == 0 {
        Some(t)
    } else {
        match synced_text_n(t, tags, opts, (n - 1) as nat) {
            Some(u) => synced_text(u, tags, opts),
            None => None,
        }
    }
}

/// Any number of steps, one or more, leaves the text that the first step
/// left: at most one geolocation fragment is ever inserted.
pub proof fn lemma_sync_repeated(t: Seq<char>, tags: GpsTags, opts: SyncOptions, n: nat)
    requires
        n >= 1,
    ensures
        synced_text_n(t, tags, opts, n) == synced_text(t, tags, opts),
    decreases n,
{
    if n == 1 {
        assert(synced_text_n(t, tags, opts, 0) == Some(t));
    } else {
        lemma_sync_repeated(t, tags, opts, (n - 1) as nat);
        if let Some(t1) = synced_text(t, tags, opts) {
            lemma_sync_idempotent(t, tags, opts, t1);
        }
    }
}

proof fn lemma_first_occurrence_exists(t: Seq<char>, p: Seq<char>, i: int)
    requires
        occurs_at(t, p, i),
    ensures
        exists|j: int| is_first_occurrence(t, p, j),
    decreases i,
{
    if !is_first_occurrence(t, p, i) {
        let j = choose|j: int| 0 <= j < i && occurs_at(t, p, j);
        lemma_first_occurrence_exists(t, p, j);
    }
}

proof fn lemma_line_start_bounds(t: Seq<char>, k: int)
    requires
        0 <= k <= t.len(),
    ensures
        0 <= line_start_of(t, k) <= k,
    decreases k,
{
    if k > 0 && t[k - 1] != '\n' {
        lemma_line_start_bounds(t, k - 1);
    }
}

} // verus!
