//! Descriptor merging: raw area markers named `"<Entity>__<suffix>"` are
//! grouped by entity key; within a group the last primary and the last
//! `__home` (secondary) descriptor win; a group with a primary descriptor
//! yields one merged description (primary text, then a line break and the
//! secondary text when one exists); a group with only a secondary descriptor
//! yields nothing.

use vstd::prelude::*;
use vstd::pervasive::VecAdditionalExecFns;
use vstd::string::StringExecFns;
use crate::text::{find_from, chars_vec, string_from_chars, copy_range, find_pat, is_match,
    lemma_find_from_bounds};
use crate::town::opt_view;

verus! {

/// One raw area entry from the feed, as plain values: its name and, when the
/// feed gave one, its description text.
pub type RawArea = (Seq<char>, Option<Seq<char>>);

/// One raw area entry from the feed: its name and, when the feed gave one,
/// its description text.
pub struct AreaMarker {
    pub name: String,
    pub desc: Option<String>,
}

/// One merged entity: its key and the merged description.
pub struct MergedArea {
    pub key: String,
    pub desc: String,
}

pub open spec fn markers_view(v: Seq<AreaMarker>) -> Seq<RawArea> {
    v.map_values(|m: AreaMarker| (m.name@, opt_view(m.desc)))
}

/// The entity key of a marker name: the prefix before the first `"__"`, or
/// the whole name when there is none.
pub open spec fn key_of(name: Seq<char>) -> Seq<char> {
    match find_from(name, "__"@, 0) {
        Some(k) => name.subrange(0, k),
        None => name,
    }
}

/// A marker is secondary exactly when its name ends with `"__home"`.
pub open spec fn is_home(name: Seq<char>) -> bool {
    name.len() >= 6 && name.subrange(name.len() - 6, name.len() as int) == "__home"@
}

/// What a group retains: the last primary and last secondary descriptor seen
/// (each `Some(None)` when that marker carried no description text).
pub struct GroupState {
    pub primary: Option<Option<Seq<char>>>,
    pub secondary: Option<Option<Seq<char>>>,
}

pub open spec fn empty_group() -> GroupState {
    GroupState { primary: None, secondary: None }
}

pub open spec fn upd_group(g: GroupState, m: RawArea) -> GroupState {
    if is_home(m.0) {
        GroupState { primary: g.primary, secondary: Some(m.1) }
    } else {
        GroupState { primary: Some(m.1), secondary: g.secondary }
    }
}

/// The group that key `k` holds after all markers are processed in order.
pub open spec fn group_for(ms: Seq<RawArea>, k: Seq<char>) -> GroupState
    decreases ms.len(),
{
    if ms.len() == 0 {
        empty_group()
    } else {
        let g = group_for(ms.drop_last(), k);
        if key_of(ms.last().0) == k {
            upd_group(g, ms.last())
        } else {
            g
        }
    }
}

/// The distinct entity keys, in order of first appearance.
pub open spec fn keys_of(ms: Seq<RawArea>) -> Seq<Seq<char>>
    decreases ms.len(),
{
    if ms.len() == 0 {
        Seq::empty()
    } else {
        let ks = keys_of(ms.drop_last());
        let k = key_of(ms.last().0);
        if ks.contains(k) {
            ks
        } else {
            ks.push(k)
        }
    }
}

/// The merged description a group yields: the primary text, then a line
/// break and the secondary text when both exist; nothing without a primary
/// text.
pub open spec fn merged_desc(g: GroupState) -> Option<Seq<char>> {
    match g.primary {
        Some(Some(pd)) => match g.secondary {
            Some(Some(sd)) => Some(pd + "\n"@ + sd),
            _ => Some(pd),
        },
        _ => None,
    }
}

/// The merged entities for the given keys, in order.
pub open spec fn merged_from(ks: Seq<Seq<char>>, ms: Seq<RawArea>) -> Seq<(Seq<char>, Seq<char>)>
    decreases ks.len(),
{
    if ks.len() == 0 {
        Seq::empty()
    } else {
        let rest = merged_from(ks.drop_last(), ms);
        match merged_desc(group_for(ms, ks.last())) {
            Some(d) => rest.push((ks.last(), d)),
            None => rest,
        }
    }
}

/// What `merge_areas` returns: one merged entity per primary-bearing group,
/// keyed, in order of the key's first appearance.
pub open spec fn merged_model(ms: Seq<RawArea>) -> Seq<(Seq<char>, Seq<char>)> {
    merged_from(keys_of(ms), ms)
}

proof fn lemma_keys_of_distinct(ms: Seq<RawArea>)
    ensures
        forall|a: int, b: int|
            0 <= a < b < keys_of(ms).len() ==> keys_of(ms)[a] != keys_of(ms)[b],
    decreases ms.len(),
{
    if ms.len() > 0 {
        lemma_keys_of_distinct(ms.drop_last());
        let ks = keys_of(ms.drop_last());
        let k = key_of(ms.last().0);
        if !ks.contains(k) {
            assert forall|a: int, b: int|
                0 <= a < b < keys_of(ms).len() implies keys_of(ms)[a] != keys_of(ms)[b] by {
                if b == ks.len() {
                    assert(keys_of(ms)[a] == ks[a]);
                    if ks[a] == k {
                        assert(ks.contains(k));
                    }
                } else {
                    assert(keys_of(ms)[a] == ks[a]);
                    assert(keys_of(ms)[b] == ks[b]);
                }
            }
        }
    }
}

proof fn lemma_merged_keys_member(ks: Seq<Seq<char>>, ms: Seq<RawArea>)
    ensures
        forall|i: int|
            0 <= i < merged_from(ks, ms).len() ==> ks.contains(
                #[trigger] merged_from(ks, ms)[i].0,
            ),
    decreases ks.len(),
{
    if ks.len() > 0 {
        lemma_merged_keys_member(ks.drop_last(), ms);
        let rest = merged_from(ks.drop_last(), ms);
        assert forall|i: int|
            0 <= i < merged_from(ks, ms).len() implies ks.contains(
            merged_from(ks, ms)[i].0,
        ) by {
            if i < rest.len() {
                assert(merged_from(ks, ms)[i] == rest[i]);
                assert(ks.drop_last().contains(rest[i].0));
                let w = choose|w: int|
                    0 <= w < ks.drop_last().len() && ks.drop_last()[w] == rest[i].0;
                assert(ks[w] == rest[i].0);
            } else {
                assert(merged_from(ks, ms)[i].0 == ks.last());
                assert(ks[ks.len() - 1] == ks.last());
            }
        }
    }
}

proof fn lemma_merged_from_distinct(ks: Seq<Seq<char>>, ms: Seq<RawArea>)
    requires
        forall|a: int, b: int| 0 <= a < b < ks.len() ==> ks[a] != ks[b],
    ensures
        forall|a: int, b: int|
            0 <= a < b < merged_from(ks, ms).len() ==> merged_from(ks, ms)[a].0 != merged_from(
                ks,
                ms,
            )[b].0,
    decreases ks.len(),
{
    if ks.len() > 0 {
        lemma_merged_from_distinct(ks.drop_last(), ms);
        lemma_merged_keys_member(ks.drop_last(), ms);
        let rest = merged_from(ks.drop_last(), ms);
        assert forall|a: int, b: int|
            0 <= a < b < merged_from(ks, ms).len() implies merged_from(ks, ms)[a].0
            != merged_from(ks, ms)[b].0 by {
            if b < rest.len() {
                assert(merged_from(ks, ms)[a] == rest[a]);
                assert(merged_from(ks, ms)[b] == rest[b]);
            } else {
                assert(merged_from(ks, ms)[b].0 == ks.last());
                assert(merged_from(ks, ms)[a] == rest[a]);
                assert(ks.drop_last().contains(rest[a].0));
                let w = choose|w: int|
                    0 <= w < ks.drop_last().len() && ks.drop_last()[w] == rest[a].0;
                assert(ks[w] == rest[a].0);
                assert(ks[ks.len() - 1] == ks.last());
            }
        }
    }
}

/// A cycle's merged entities carry pairwise distinct keys, so their snapshots
/// target distinct store keys and may be persisted independently.
pub proof fn lemma_merged_keys_distinct(ms: Seq<RawArea>)
    ensures
        forall|a: int, b: int|
            0 <= a < b < merged_model(ms).len() ==> merged_model(ms)[a].0 != merged_model(
                ms,
            )[b].0,
{
    lemma_keys_of_distinct(ms);
    lemma_merged_from_distinct(keys_of(ms), ms);
}

// ---------------------------------------------------------------------------
// Executable merging.
// ---------------------------------------------------------------------------
struct GroupEntry {
    key: String,
    primary: Option<Option<String>>,
    secondary: Option<Option<String>>,
}

spec fn oo_view(o: Option<Option<String>>) -> Option<Option<Seq<char>>> {
    match o {
        Some(inner) => Some(opt_view(inner)),
        None => None,
    }
}

spec fn entry_group(e: GroupEntry) -> GroupState {
    GroupState { primary: oo_view(e.primary), secondary: oo_view(e.secondary) }
}

spec fn entry_keys(es: Seq<GroupEntry>) -> Seq<Seq<char>> {
    es.map_values(|e: GroupEntry| e.key@)
}

/// Computes the entity key of a marker name.
pub fn marker_key(name: &str) -> (r: String)
    ensures
        r@ == key_of(name@),
{
    let v = chars_vec(name);
    let sep = chars_vec("__");
    match find_pat(&v, &sep, 0) {
        Some(k) => {
            proof {
                lemma_find_from_bounds(v@, sep@, 0);
            }
            let piece = copy_range(&v, 0, k);
            string_from_chars(&piece)
        },
        None => name.to_owned(),
    }
}

fn is_home_run(name: &Vec<char>) -> (r: bool)
    ensures
        r == is_home(name@),
{
    proof {
        reveal_strlit("__home");
    }
    let home = chars_vec("__home");
    if name.len() < 6 {
        return false;
    }
    is_match(name, &home, name.len() - 6)
}

fn clone_opt_string(o: &Option<String>) -> (r: Option<String>)
    ensures
        opt_view(r) == opt_view(*o),
{
    match o {
        Some(s) => Some(s.clone()),
        None => None,
    }
}

fn clone_oos(o: &Option<Option<String>>) -> (r: Option<Option<String>>)
    ensures
        oo_view(r) == oo_view(*o),
{
    match o {
        Some(inner) => Some(clone_opt_string(inner)),
        None => None,
    }
}

fn find_entry(es: &Vec<GroupEntry>, k: &String) -> (r: Option<usize>)
    ensures
        match r {
            Some(idx) => idx < es@.len() && es@[idx as int].key@ == k@,
            None => forall|j: int| 0 <= j < es@.len() ==> es@[j].key@ != k@,
        },
{
    let mut j: usize = 0;
    while j < es.len()
        invariant
            j <= es@.len(),
            forall|t: int| 0 <= t < j ==> es@[t].key@ != k@,
        decreases es@.len() - j,
    {
        if es[j].key == *k {
            return Some(j);
        }
        j += 1;
    }
    None
}

/// Groups the markers by entity key and merges each primary-bearing group's
/// descriptors, last descriptor winning within a group, keys in order of
/// first appearance.
pub fn merge_areas(markers: &Vec<AreaMarker>) -> (r: Vec<MergedArea>)
    ensures
        r@.len() == merged_model(markers_view(markers@)).len(),
        forall|i: int|
            0 <= i < r@.len() ==> r@[i].key@ == merged_model(markers_view(markers@))[i].0
                && r@[i].desc@ == merged_model(markers_view(markers@))[i].1,
{
    let ghost ms = markers_view(markers@);
    let mut es: Vec<GroupEntry> = Vec::new();
    let mut i: usize = 0;
    while i < markers.len()
        invariant
            ms == markers_view(markers@),
            i <= ms.len(),
            entry_keys(es@) == keys_of(ms.take(i as int)),
            forall|a: int, b: int|
                0 <= a < b < es@.len() ==> es@[a].key@ != es@[b].key@,
            forall|j: int|
                0 <= j < es@.len() ==> entry_group(es@[j]) == group_for(
                    ms.take(i as int),
                    es@[j].key@,
                ),
            forall|k: Seq<char>|
                !entry_keys(es@).contains(k) ==> #[trigger] group_for(ms.take(i as int), k)
                    == empty_group(),
        decreases ms.len() - i,
    {
        let m = &markers[i];
        let key = marker_key(m.name.as_str());
        let nv = chars_vec(m.name.as_str());
        let home = is_home_run(&nv);
        let ghost pre = ms.take(i as int);
        let ghost post = ms.take(i + 1 as int);
        let ghost mk = key_of(ms[i as int].0);
        proof {
            assert(ms[i as int] == (markers@[i as int].name@, opt_view(markers@[i as int].desc)));
            assert(post.drop_last() =~= pre);
            assert(post.last() == ms[i as int]);
        }
        match find_entry(&es, &key) {
            Some(idx) => {
                let ghost old_es = es@;
                let e = &es[idx];
                let updated = if home {
                    GroupEntry {
                        key: e.key.clone(),
                        primary: clone_oos(&e.primary),
                        secondary: Some(clone_opt_string(&m.desc)),
                    }
                } else {
                    GroupEntry {
                        key: e.key.clone(),
                        primary: Some(clone_opt_string(&m.desc)),
                        secondary: clone_oos(&e.secondary),
                    }
                };
                es.set(idx, updated);
                proof {
                    assert(entry_keys(es@) =~= entry_keys(old_es));
                    assert(entry_keys(old_es).contains(mk)) by {
                        assert(entry_keys(old_es)[idx as int] == mk);
                    }
                    assert(keys_of(post) == keys_of(pre));
                    assert(entry_group(es@[idx as int]) == upd_group(
                        group_for(pre, mk),
                        ms[i as int],
                    ));
                    assert forall|j: int| 0 <= j < es@.len() implies entry_group(es@[j])
                        == group_for(post, es@[j].key@) by {
                        if j == idx {
                            assert(group_for(post, mk) == upd_group(
                                group_for(pre, mk),
                                ms[i as int],
                            ));
                        } else {
                            assert(es@[j].key@ != mk);
                            assert(group_for(post, es@[j].key@) == group_for(pre, es@[j].key@));
                        }
                    }
                    assert forall|k: Seq<char>| !entry_keys(es@).contains(k) implies #[trigger]
                        group_for(post, k) == empty_group() by {
                        assert(!entry_keys(old_es).contains(k));
                        assert(k != mk);
                        assert(group_for(post, k) == group_for(pre, k));
                    }
                }
            },
            None => {
                let entry = if home {
                    GroupEntry { key, primary: None, secondary: Some(clone_opt_string(&m.desc)) }
                } else {
                    GroupEntry { key, primary: Some(clone_opt_string(&m.desc)), secondary: None }
                };
                let ghost old_es = es@;
                es.push(entry);
                proof {
                    assert(!entry_keys(old_es).contains(mk)) by {
                        if entry_keys(old_es).contains(mk) {
                            let t = choose|t: int|
                                0 <= t < entry_keys(old_es).len() && entry_keys(old_es)[t] == mk;
                            assert(old_es[t].key@ == mk);
                        }
                    }
                    assert(entry_keys(es@) =~= entry_keys(old_es).push(mk));
                    assert(keys_of(post) == keys_of(pre).push(mk));
                    assert(group_for(pre, mk) == empty_group());
                    assert(entry_group(es@[es@.len() - 1]) == upd_group(
                        empty_group(),
                        ms[i as int],
                    ));
                    assert forall|j: int| 0 <= j < es@.len() implies entry_group(es@[j])
                        == group_for(post, es@[j].key@) by {
                        if j == es@.len() - 1 {
                            assert(group_for(post, mk) == upd_group(
                                group_for(pre, mk),
                                ms[i as int],
                            ));
                        } else {
                            assert(es@[j].key@ != mk) by {
                                assert(entry_keys(old_es)[j] == es@[j].key@);
                            }
                            assert(group_for(post, es@[j].key@) == group_for(pre, es@[j].key@));
                        }
                    }
                    assert forall|k: Seq<char>| !entry_keys(es@).contains(k) implies #[trigger]
                        group_for(post, k) == empty_group() by {
                        assert(!entry_keys(old_es).contains(k)) by {
                            if entry_keys(old_es).contains(k) {
                                let t = choose|t: int|
                                    0 <= t < entry_keys(old_es).len() && entry_keys(old_es)[t]
                                        == k;
                                assert(entry_keys(es@)[t] == k);
                            }
                        }
                        assert(k != mk) by {
                            assert(entry_keys(es@)[es@.len() - 1] == mk);
                        }
                        assert(group_for(post, k) == group_for(pre, k));
                    }
                }
            },
        }
        i += 1;
    }
    proof {
        assert(ms.take(ms.len() as int) =~= ms);
    }
    let ghost ek = entry_keys(es@);
    let mut out: Vec<MergedArea> = Vec::new();
    let mut j: usize = 0;
    while j < es.len()
        invariant
            ms == markers_view(markers@),
            j <= es@.len(),
            ek == entry_keys(es@),
            ek == keys_of(ms),
            forall|t: int|
                0 <= t < es@.len() ==> entry_group(es@[t]) == group_for(ms, es@[t].key@),
            out@.len() == merged_from(ek.take(j as int), ms).len(),
            forall|t: int|
                0 <= t < out@.len() ==> out@[t].key@ == merged_from(ek.take(j as int), ms)[t].0
                    && out@[t].desc@ == merged_from(ek.take(j as int), ms)[t].1,
        decreases es@.len() - j,
    {
        let ghost prefix = ek.take(j as int);
        let ghost prefix2 = ek.take(j + 1 as int);
        proof {
            assert(prefix2.drop_last() =~= prefix);
            assert(prefix2.last() == es@[j as int].key@);
        }
        let e = &es[j];
        match &e.primary {
            Some(inner) => match inner {
                Some(pd) => {
                    let mut d = pd.clone();
                    match &e.secondary {
                        Some(sec) => match sec {
                            Some(sd) => {
                                d.append("\n");
                                d.append(sd.as_str());
                                proof {
                                    assert(d@ =~= pd@ + "\n"@ + sd@);
                                }
                            },
                            None => {},
                        },
                        None => {},
                    }
                    out.push(MergedArea { key: e.key.clone(), desc: d });
                    proof {
                        assert(merged_desc(entry_group(es@[j as int])) is Some);
                        assert(merged_from(prefix2, ms) == merged_from(prefix, ms).push(
                            (
                                es@[j as int].key@,
                                merged_desc(group_for(ms, es@[j as int].key@))->0,
                            ),
                        ));
                    }
                },
                None => {
                    proof {
                        assert(merged_desc(entry_group(es@[j as int])) is None);
                        assert(merged_from(prefix2, ms) == merged_from(prefix, ms));
                    }
                },
            },
            None => {
                proof {
                    assert(merged_desc(entry_group(es@[j as int])) is None);
                    assert(merged_from(prefix2, ms) == merged_from(prefix, ms));
                }
            },
        }
        j += 1;
    }
    proof {
        assert(ek.take(ek.len() as int) =~= ek);
    }
    out
}

} // verus!
