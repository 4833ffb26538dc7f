//! One fetch cycle: classify the HTTP outcome, decode the feed body, merge
//! the areas, build one record per entity, and persist each snapshot. Every
//! failure — transport, a non-success status, a malformed body — is contained
//! to the cycle: it yields no records and leaves the store untouched.

use vstd::prelude::*;
use crate::merge::{AreaMarker, merge_areas, merged_model, markers_view, RawArea};
use crate::town::{Town, build_town, built_from};
use crate::repository::{TownRepository, all_wf};
use crate::text::{find_from, chars_vec, find_pat};

verus! {

/// The area list `/sets/towny.markerset/areas` of a feed body decodes to —
/// each entry a name and an optional description — or nothing when the body
/// is not JSON or lacks that collection; a function of the body text alone.
pub uninterp spec fn feed_areas(body: Seq<char>) -> Option<Seq<RawArea>>;

/// Relies on serde_json: `from_str` to parse the body, `Value::pointer` to
/// locate `/sets/towny.markerset/areas`, `Value::as_object` to read it as an
/// object (iterated in its key order), and `Value::get` with `Value::as_str`
/// to read each area's `desc`; what comes back is a function of the body
/// text alone.
#[verifier::external_body]
fn decode_feed(body: &str) -> (r: Option<Vec<AreaMarker>>)
    ensures
        match r {
            Some(v) => feed_areas(body@) == Some(markers_view(v@)),
            None => feed_areas(body@) is None,
        },
{
    let parsed: serde_json::Value = serde_json::from_str(body).ok()?;
    let areas = parsed.pointer("/sets/towny.markerset/areas")?;
    let obj = areas.as_object()?;
    let mut out = Vec::new();
    for (name, area) in obj {
        let desc = area.get("desc").and_then(|d| d.as_str()).map(|s| s.to_string());
        out.push(AreaMarker { name: name.clone(), desc });
    }
    Some(out)
}

/// An HTTP status is a success exactly in the 2xx range.
pub fn status_is_success(code: u16) -> (r: bool)
    ensures
        r == (200 <= code < 300),
{
    200 <= code && code < 300
}

pub open spec fn contains_pat(s: Seq<char>, pat: Seq<char>) -> bool {
    find_from(s, pat, 0) is Some
}

/// A persistence failure is of the transient validation class exactly when
/// its message names a validation exception; such failures are logged and
/// swallowed, all others abort the remainder of the cycle.
pub fn error_is_transient(message: &str) -> (r: bool)
    ensures
        r == contains_pat(message@, "ValidationException"@),
{
    let v = chars_vec(message);
    let pat = chars_vec("ValidationException");
    find_pat(&v, &pat, 0).is_some()
}

/// The records one cycle builds from its markers: one per merged entity, in
/// merged order, each built from its key and merged description and stamped
/// with `now`.
pub open spec fn records_built(ms: Seq<RawArea>, now: i64, r: Seq<Town>) -> bool {
    &&& r.len() == merged_model(ms).len()
    &&& forall|i: int|
        0 <= i < r.len() ==> built_from(r[i], merged_model(ms)[i].0, merged_model(ms)[i].1, now)
}

/// Builds the record for every merged entity of this cycle's markers.
pub fn process_areas(markers: &Vec<AreaMarker>, now: i64) -> (r: Vec<Town>)
    ensures
        records_built(markers_view(markers@), now, r@),
        forall|i: int| 0 <= i < r@.len() ==> r@[i].wf(),
{
    let merged = merge_areas(markers);
    let mut out: Vec<Town> = Vec::new();
    let mut i: usize = 0;
    while i < merged.len()
        invariant
            merged@.len() == merged_model(markers_view(markers@)).len(),
            forall|t: int|
                0 <= t < merged@.len() ==> merged@[t].key@ == merged_model(
                    markers_view(markers@),
                )[t].0 && merged@[t].desc@ == merged_model(markers_view(markers@))[t].1,
            i <= merged@.len(),
            out@.len() == i,
            forall|t: int|
                0 <= t < i ==> built_from(
                    out@[t],
                    merged_model(markers_view(markers@))[t].0,
                    merged_model(markers_view(markers@))[t].1,
                    now,
                ),
            forall|t: int| 0 <= t < out@.len() ==> out@[t].wf(),
        decreases merged@.len() - i,
    {
        let t = build_town(merged[i].key.as_str(), merged[i].desc.as_str(), now);
        out.push(t);
        i += 1;
    }
    out
}

/// What one poll attempt produced: a transport failure, or a response with
/// its status code and body text.
pub enum FetchOutcome {
    Transport,
    Response(u16, String),
}

/// The cycle is skipped — no records — on transport failure, a non-success
/// status, or a body without the areas collection.
pub open spec fn cycle_skipped(o: FetchOutcome) -> bool {
    match o {
        FetchOutcome::Transport => true,
        FetchOutcome::Response(code, body) => !(200 <= code < 300) || feed_areas(body@) is None,
    }
}

/// What one cycle yields for the store.
pub open spec fn cycle_yields(o: FetchOutcome, now: i64, r: Seq<Town>) -> bool {
    match o {
        FetchOutcome::Transport => r.len() == 0,
        FetchOutcome::Response(code, body) => {
            if !(200 <= code < 300) {
                r.len() == 0
            } else {
                match feed_areas(body@) {
                    None => r.len() == 0,
                    Some(areas) => records_built(areas, now, r),
                }
            }
        },
    }
}

/// Plans one cycle: the snapshots to persist for this fetch outcome, stamped
/// with the wall-clock reading `now`. A failed or malformed fetch plans
/// nothing; this never fails.
pub fn plan_cycle(outcome: &FetchOutcome, now: i64) -> (r: Vec<Town>)
    ensures
        cycle_yields(*outcome, now, r@),
        cycle_skipped(*outcome) ==> r@.len() == 0,
        forall|i: int| 0 <= i < r@.len() ==> r@[i].wf(),
{
    match outcome {
        FetchOutcome::Transport => Vec::new(),
        FetchOutcome::Response(code, body) => {
            if !status_is_success(*code) {
                return Vec::new();
            }
            match decode_feed(body.as_str()) {
                None => Vec::new(),
                Some(markers) => process_areas(&markers, now),
            }
        },
    }
}

/// Runs one cycle against the in-memory store: plans the records and
/// persists each, in order. A failed or malformed fetch leaves the store
/// unchanged; a successful one appends one snapshot per merged entity.
pub fn apply_cycle(repo: &mut TownRepository, outcome: &FetchOutcome, now: i64)
    ensures
        exists|rs: Seq<Town>|
            #[trigger] cycle_yields(*outcome, now, rs) && final(repo)@ == old(repo)@ + rs,
        cycle_skipped(*outcome) ==> final(repo)@ == old(repo)@,
        all_wf(old(repo)@) ==> all_wf(final(repo)@),
{
    let mut towns = plan_cycle(outcome, now);
    let ghost planned = towns@;
    let ghost start = repo@;
    let mut k: usize = 0;
    proof {
        vstd::std_specs::vec::axiom_spec_len(&towns);
        assert(start + planned.take(0) =~= start);
        assert(planned.skip(0) =~= planned);
    }
    while towns.len() > 0
        invariant
            k <= planned.len(),
            planned.len() <= usize::MAX,
            towns@ == planned.skip(k as int),
            repo@ == start + planned.take(k as int),
            forall|i: int| 0 <= i < planned.len() ==> planned[i].wf(),
            all_wf(start) ==> all_wf(repo@),
        decreases towns@.len(),
    {
        proof {
            assert(planned.skip(k as int)[0] == planned[k as int]);
        }
        let t = towns.remove(0);
        proof {
            assert(planned.skip(k as int).remove(0) =~= planned.skip(k + 1));
            assert((start + planned.take(k as int)).push(planned[k as int]) =~= start
                + planned.take(k + 1));
        }
        repo.put(t);
        k += 1;
    }
    proof {
        assert(planned.skip(k as int).len() == 0);
        assert(k == planned.len());
        assert(planned.take(k as int) =~= planned);
        if cycle_skipped(*outcome) {
            assert(repo@ =~= start);
        }
    }
}

} // verus!
