use vstd::prelude::*;

verus! {

/// A half-open time interval `[start, end)`, in nanoseconds relative to
/// the recording origin.
pub type Span = (i64, i64);

/// Whether instant `t` lies in one of `spans`.
pub open spec fn covered_by(spans: Seq<Span>, t: int) -> bool {
    exists|k: int| 0 <= k < spans.len() && #[trigger] spans[k].0 <= t < spans[k].1
}

/// Every span of `spans` starts before it ends.
pub open spec fn all_nonempty(spans: Seq<Span>) -> bool {
    forall|k: int| 0 <= k < spans.len() ==> #[trigger] spans[k].0 < spans[k].1
}

/// Every span of `spans` starts no later than it ends.
pub open spec fn well_formed_spans(spans: Seq<Span>) -> bool {
    forall|k: int| 0 <= k < spans.len() ==> #[trigger] spans[k].0 <= spans[k].1
}

/// The spans follow one another in time without overlapping.
pub open spec fn ordered_disjoint(spans: Seq<Span>) -> bool {
    forall|i: int, j: int| 0 <= i < j < spans.len() ==> #[trigger] spans[i].1 <= #[trigger] spans[j].0
}

/// Every span of `spans` lies inside `[lo, hi)`.
pub open spec fn within(spans: Seq<Span>, lo: int, hi: int) -> bool {
    forall|k: int| 0 <= k < spans.len() ==> lo <= #[trigger] spans[k].0 && spans[k].1 <= hi
}

/// The part of `[keep_start, keep_end)` that lies outside every pause
/// interval, as the list of spans that remain.
///
/// Each remaining span is non-empty and lies inside the window, and an
/// instant is covered by the result exactly when it lies in the window and
/// in no pause. When every pause ends no earlier than it starts, the spans
/// come out in time order and do not overlap.
#[verifier::spinoff_prover]
pub fn subtract_pauses(keep_start: i64, keep_end: i64, pauses: &Vec<Span>) -> (r: Vec<Span>)
    requires
        keep_start < keep_end,
    ensures
        all_nonempty(r@),
        within(r@, keep_start as int, keep_end as int),
        forall|t: int|
            covered_by(r@, t) <==> (keep_start <= t < keep_end && !covered_by(pauses@, t)),
        well_formed_spans(pauses@) ==> ordered_disjoint(r@),
{
    let mut segments: Vec<Span> = Vec::new();
    segments.push((keep_start, keep_end));
    proof {
        assert forall|t: int|
            covered_by(segments@, t) <==> (keep_start <= t < keep_end && !covered_by(
                pauses@.take(0),
                t,
            )) by {
            if keep_start <= t < keep_end {
                assert(segments@[0].0 <= t < segments@[0].1);
            }
        }
    }
    let mut k: usize = 0;
    while k < pauses.len()
        invariant
            0 <= k <= pauses.len(),
            all_nonempty(segments@),
            within(segments@, keep_start as int, keep_end as int),
            forall|t: int|
                covered_by(segments@, t) <==> (keep_start <= t < keep_end && !covered_by(
                    pauses@.take(k as int),
                    t,
                )),
            well_formed_spans(pauses@) ==> ordered_disjoint(segments@),
        decreases pauses.len() - k,
    {
        let (pause_start, pause_end) = pauses[k];
        let ghost before = segments@;
        let mut next: Vec<Span> = Vec::new();
        let mut j: usize = 0;
        while j < segments.len()
            invariant
                0 <= j <= segments.len(),
                segments@ == before,
                (pause_start, pause_end) == pauses@[k as int],
                all_nonempty(before),
                all_nonempty(next@),
                within(next@, keep_start as int, keep_end as int),
                within(before, keep_start as int, keep_end as int),
                forall|t: int|
                    covered_by(next@, t) <==> (covered_by(before.take(j as int), t) && !(
                    pause_start <= t < pause_end)),
                pause_start <= pause_end && ordered_disjoint(before) ==> (ordered_disjoint(next@)
                    && (j < before.len() ==> forall|m: int|
                    0 <= m < next@.len() ==> #[trigger] next@[m].1 <= before[j as int].0)),
            decreases segments.len() - j,
        {
            let (seg_start, seg_end) = segments[j];
            let ghost next_before = next@;
            if pause_end <= seg_start || pause_start >= seg_end {
                next.push((seg_start, seg_end));
            } else {
                if pause_start > seg_start {
                    let cut = if pause_start < seg_end {
                        pause_start
                    } else {
                        seg_end
                    };
                    next.push((seg_start, cut));
                }
                if pause_end < seg_end {
                    let from = if pause_end > seg_start {
                        pause_end
                    } else {
                        seg_start
                    };
                    next.push((from, seg_end));
                }
            }
            proof {
                let bj = before.take(j + 1);
                assert(bj =~= before.take(j as int).push(before[j as int]));
                assert(before[j as int] == (seg_start, seg_end));
                assert(keep_start <= seg_start && seg_end <= keep_end);
                assert forall|m: int| 0 <= m < next@.len() implies keep_start <= #[trigger] next@[m].0
                    && next@[m].1 <= keep_end by {
                    if m < next_before.len() {
                        assert(next_before[m] == next@[m]);
                    }
                }
                assert(within(next@, keep_start as int, keep_end as int));
                assert forall|t: int|
                    covered_by(next@, t) <==> (covered_by(before.take(j + 1), t) && !(pause_start <= t
                        < pause_end)) by {
                    if covered_by(next@, t) {
                        let m = choose|m: int|
                            0 <= m < next@.len() && #[trigger] next@[m].0 <= t < next@[m].1;
                        if m < next_before.len() {
                            assert(next_before[m] == next@[m]);
                            assert(next_before[m].0 <= t < next_before[m].1);
                            assert(covered_by(next_before, t));
                            assert(covered_by(before.take(j as int), t));
                            let q = choose|q: int|
                                0 <= q < j && #[trigger] before.take(j as int)[q].0 <= t
                                    < before.take(j as int)[q].1;
                            assert(bj[q] == before[q]);
                        } else {
                            assert(bj[j as int].0 <= t < bj[j as int].1);
                        }
                    }
                    if covered_by(bj, t) && !(pause_start <= t < pause_end) {
                        let q = choose|q: int| 0 <= q < bj.len() && #[trigger] bj[q].0 <= t < bj[q].1;
                        if q < j {
                            assert(before.take(j as int)[q] == bj[q]);
                            assert(covered_by(before.take(j as int), t));
                            assert(covered_by(next_before, t));
                            let m = choose|m: int|
                                0 <= m < next_before.len() && #[trigger] next_before[m].0 <= t
                                    < next_before[m].1;
                            assert(next@[m] == next_before[m]);
                        } else {
                            let last = next@.len() - 1;
                            if pause_end <= seg_start || pause_start >= seg_end {
                                assert(next@[last].0 <= t < next@[last].1);
                            } else if t < pause_start {
                                assert(next@[next_before.len() as int].0 <= t
                                    < next@[next_before.len() as int].1);
                            } else {
                                assert(next@[last].0 <= t < next@[last].1);
                            }
                        }
                    }
                }
                if pause_start <= pause_end && ordered_disjoint(before) {
                    assert forall|a: int, b: int|
                        0 <= a < b < next@.len() implies #[trigger] next@[a].1
                        <= #[trigger] next@[b].0 by {
                        if b >= next_before.len() && a < next_before.len() {
                            assert(next_before[a] == next@[a]);
                        } else if b < next_before.len() {
                            assert(next_before[a] == next@[a]);
                            assert(next_before[b] == next@[b]);
                        }
                    }
                    if j + 1 < before.len() {
                        assert(before[j as int].1 <= before[j + 1].0);
                        assert forall|m: int| 0 <= m < next@.len() implies #[trigger] next@[m].1
                            <= before[j + 1].0 by {
                            if m < next_before.len() {
                                assert(next_before[m] == next@[m]);
                            }
                        }
                    }
                }
            }
            j = j + 1;
        }
        proof {
            assert(before.take(before.len() as int) =~= before);
            let pk = pauses@.take(k + 1);
            assert(pk =~= pauses@.take(k as int).push(pauses@[k as int]));
            assert forall|t: int|
                covered_by(next@, t) <==> (keep_start <= t < keep_end && !covered_by(pk, t)) by {
                if covered_by(pk, t) {
                    let q = choose|q: int| 0 <= q < pk.len() && #[trigger] pk[q].0 <= t < pk[q].1;
                    if q < k {
                        assert(pauses@.take(k as int)[q] == pk[q]);
                        assert(covered_by(pauses@.take(k as int), t));
                    }
                }
                if !covered_by(pk, t) {
                    if covered_by(pauses@.take(k as int), t) {
                        let q = choose|q: int|
                            0 <= q < k && #[trigger] pauses@.take(k as int)[q].0 <= t
                                < pauses@.take(k as int)[q].1;
                        assert(pk[q] == pauses@.take(k as int)[q]);
                    }
                    if pause_start <= t < pause_end {
                        assert(pk[k as int].0 <= t < pk[k as int].1);
                    }
                }
            }
            if well_formed_spans(pauses@) {
                assert(pauses@[k as int].0 <= pauses@[k as int].1);
            }
        }
        segments = next;
        k = k + 1;
    }
    proof {
        assert(pauses@.take(pauses.len() as int) =~= pauses@);
    }
    segments
}

} // verus!

verus! {

/// One application that currently owns an audio session on the default
/// playback device.
pub struct NativeAudioApplication {
    pub process_id: u32,
    pub name: String,
}

impl View for NativeAudioApplication {
    type V = (u32, Seq<char>);

    open spec fn view(&self) -> (u32, Seq<char>) {
        (self.process_id, self.name@)
    }
}

/// What Windows reports for one audio session: its process, its display
/// name if it could be read, and the process's executable name if it
/// could be found.
pub struct AudioSessionEntry {
    pub process_id: u32,
    pub display_name: Option<String>,
    pub process_name: Option<String>,
}

pub open spec fn opt_chars(o: Option<String>) -> Option<Seq<char>> {
    match o {
        Some(s) => Some(s@),
        None => None,
    }
}

impl View for AudioSessionEntry {
    type V = (u32, Option<Seq<char>>, Option<Seq<char>>);

    open spec fn view(&self) -> (u32, Option<Seq<char>>, Option<Seq<char>>) {
        (self.process_id, opt_chars(self.display_name), opt_chars(self.process_name))
    }
}

/// The name shown for a session: its display name unless that is blank,
/// else its process's executable name, else `Process <pid>`.
pub open spec fn session_app_name(e: (u32, Option<Seq<char>>, Option<Seq<char>>)) -> Seq<char> {
    match e.1 {
        Some(d) if crate::text::trim(d).len() > 0 => d,
        _ => match e.2 {
            Some(p) => p,
            None => "Process "@ + crate::text::decimal(e.0 as nat),
        },
    }
}

/// The applications listed for `sessions`, before ordering: one per
/// process, taken from that process's first session; sessions without a
/// process (id 0) are left out.
pub open spec fn session_applications(sessions: Seq<(u32, Option<Seq<char>>, Option<Seq<char>>)>) -> Seq<
    (u32, Seq<char>),
>
    decreases sessions.len(),
{
    if sessions.len() == 0 {
        Seq::empty()
    } else {
        let rest = session_applications(sessions.drop_last());
        let e = sessions.last();
        if e.0 != 0 && (forall|j: int| 0 <= j < sessions.len() - 1 ==> #[trigger] sessions[j].0 != e.0) {
            rest.push((e.0, session_app_name(e)))
        } else {
            rest
        }
    }
}

/// The order of the list: by lowercased name, then by process id.
pub open spec fn app_order_le(x: (u32, Seq<char>), y: (u32, Seq<char>)) -> bool {
    let kx = crate::text::spec_lowercase(x.1);
    let ky = crate::text::spec_lowercase(y.1);
    if kx != ky {
        crate::text::lex_le(kx, ky)
    } else {
        x.0 <= y.0
    }
}

pub open spec fn sorted_apps(s: Seq<(u32, Seq<char>)>) -> bool {
    forall|i: int, j: int| 0 <= i < j < s.len() ==> app_order_le(#[trigger] s[i], #[trigger] s[j])
}

pub proof fn lemma_app_order_total(x: (u32, Seq<char>), y: (u32, Seq<char>))
    ensures
        app_order_le(x, y) || app_order_le(y, x),
{
    crate::text::lemma_lex_total(crate::text::spec_lowercase(x.1), crate::text::spec_lowercase(y.1));
}

pub proof fn lemma_app_order_transitive(x: (u32, Seq<char>), y: (u32, Seq<char>), z: (u32, Seq<char>))
    requires
        app_order_le(x, y),
        app_order_le(y, z),
    ensures
        app_order_le(x, z),
{
    let kx = crate::text::spec_lowercase(x.1);
    let ky = crate::text::spec_lowercase(y.1);
    let kz = crate::text::spec_lowercase(z.1);
    if kx != ky && ky != kz {
        crate::text::lemma_lex_transitive(kx, ky, kz);
        if kx == kz {
            crate::text::lemma_lex_antisymmetric(kx, ky);
        }
    }
}

/// Every process listed appeared in some session, and each is listed
/// once, never process 0.
pub proof fn law_one_entry_per_process(sessions: Seq<(u32, Option<Seq<char>>, Option<Seq<char>>)>)
    ensures
        forall|i: int|
            0 <= i < session_applications(sessions).len() ==> #[trigger] session_applications(
                sessions,
            )[i].0 != 0,
        forall|i: int, j: int|
            0 <= i < j < session_applications(sessions).len() ==> #[trigger] session_applications(
                sessions,
            )[i].0 != #[trigger] session_applications(sessions)[j].0,
        forall|i: int|
            #![trigger session_applications(sessions)[i]]
            0 <= i < session_applications(sessions).len() ==> exists|k: int|
                0 <= k < sessions.len() && #[trigger] sessions[k].0 == session_applications(
                    sessions,
                )[i].0,
    decreases sessions.len(),
{
    if sessions.len() > 0 {
        let pre = sessions.drop_last();
        law_one_entry_per_process(pre);
        let rest = session_applications(pre);
        let e = sessions.last();
        let out = session_applications(sessions);
        assert forall|i: int| #![trigger out[i]] 0 <= i < out.len() implies exists|k: int|
            0 <= k < sessions.len() && #[trigger] sessions[k].0 == out[i].0 by {
            if i < rest.len() {
                assert(out[i] == rest[i]);
                let k = choose|k: int| 0 <= k < pre.len() && #[trigger] pre[k].0 == rest[i].0;
                assert(sessions[k] == pre[k]);
            } else {
                assert(sessions[sessions.len() - 1].0 == out[i].0);
            }
        }
        if out.len() > rest.len() {
            assert forall|i: int, j: int| 0 <= i < j < out.len() implies #[trigger] out[i].0
                != #[trigger] out[j].0 by {
                if j == out.len() - 1 {
                    assert(out[i] == rest[i]);
                    let k = choose|k: int| 0 <= k < pre.len() && #[trigger] pre[k].0 == rest[i].0;
                    assert(sessions[k] == pre[k]);
                } else {
                    assert(out[i] == rest[i] && out[j] == rest[j]);
                }
            }
            assert forall|i: int| 0 <= i < out.len() implies #[trigger] out[i].0 != 0 by {
                if i < rest.len() {
                    assert(out[i] == rest[i]);
                }
            }
        }
    }
}

/// The name for one session, as `session_app_name` states it.
fn session_name(e: &AudioSessionEntry) -> (r: String)
    ensures
        r@ == session_app_name(e@),
{
    if let Some(d) = &e.display_name {
        let t = crate::text::trimmed_chars(d.as_str());
        if t.len() > 0 {
            return d.clone();
        }
    }
    match &e.process_name {
        Some(p) => p.clone(),
        None => {
            let mut s = String::new();
            crate::text::push_str(&mut s, "Process ");
            crate::text::push_decimal(&mut s, e.process_id as u128);
            s
        },
    }
}

pub open spec fn entry_views(s: Seq<AudioSessionEntry>) -> Seq<(u32, Option<Seq<char>>, Option<Seq<char>>)> {
    s.map_values(|e: AudioSessionEntry| e@)
}

pub open spec fn app_views(s: Seq<NativeAudioApplication>) -> Seq<(u32, Seq<char>)> {
    s.map_values(|a: NativeAudioApplication| a@)
}

struct SortItem {
    key: Vec<char>,
    app: NativeAudioApplication,
}

spec fn item_apps(s: Seq<SortItem>) -> Seq<(u32, Seq<char>)> {
    s.map_values(|it: SortItem| it.app@)
}

spec fn keys_match(s: Seq<SortItem>) -> bool {
    forall|k: int| 0 <= k < s.len() ==> #[trigger] s[k].key@ == crate::text::spec_lowercase(s[k].app.name@)
}

/// Whether `item` comes no later than the application `(pid, name)` whose
/// lowercased name is `key`.
fn item_le(item: &SortItem, key: &Vec<char>, pid: u32, Ghost(name): Ghost<Seq<char>>) -> (r: bool)
    requires
        item.key@ == crate::text::spec_lowercase(item.app.name@),
        key@ == crate::text::spec_lowercase(name),
    ensures
        r == app_order_le(item.app@, (pid, name)),
{
    if crate::text::chars_eq(&item.key, key) {
        item.app.process_id <= pid
    } else {
        crate::text::lex_le_chars(&item.key, key)
    }
}

/// Inserts `app` into the ordered `items` at its place.
fn insert_sorted(items: &mut Vec<SortItem>, app: NativeAudioApplication)
    requires
        sorted_apps(item_apps(old(items)@)),
        keys_match(old(items)@),
    ensures
        sorted_apps(item_apps(final(items)@)),
        keys_match(final(items)@),
        item_apps(final(items)@).to_multiset() == item_apps(old(items)@).to_multiset().insert(app@),
{
    broadcast use vstd::seq_lib::group_to_multiset_ensures;

    let ghost av = app@;
    let key_string = crate::text::lowercase(app.name.as_str());
    let key = crate::text::chars_of(key_string.as_str());
    let ghost before = items@;
    let ghost old_apps = item_apps(before);
    let mut p: usize = 0;
    while p < items.len() && item_le(&items[p], &key, app.process_id, Ghost(app.name@))
        invariant
            0 <= p <= items.len(),
            items@ == before,
            old_apps == item_apps(before),
            keys_match(before),
            key@ == crate::text::spec_lowercase(av.1),
            av == app@,
            forall|q: int| 0 <= q < p ==> app_order_le(#[trigger] old_apps[q], av),
        decreases items.len() - p,
    {
        assert(old_apps[p as int] == items@[p as int].app@);
        p = p + 1;
    }
    proof {
        if p < items.len() {
            assert(old_apps[p as int] == items@[p as int].app@);
            assert(!app_order_le(old_apps[p as int], av));
            lemma_app_order_total(old_apps[p as int], av);
        }
    }
    items.insert(p, SortItem { key, app });
    proof {
        let new_apps = item_apps(items@);
        assert(new_apps =~= old_apps.insert(p as int, av));
        assert forall|a: int, b: int| 0 <= a < b < new_apps.len() implies app_order_le(
            #[trigger] new_apps[a],
            #[trigger] new_apps[b],
        ) by {
            if b < p {
                assert(new_apps[a] == old_apps[a] && new_apps[b] == old_apps[b]);
            } else if b == p {
                assert(new_apps[a] == old_apps[a]);
            } else if a == p {
                assert(new_apps[b] == old_apps[b - 1]);
                let y = old_apps[p as int];
                if b - 1 > p {
                    assert(app_order_le(old_apps[p as int], old_apps[b - 1]));
                    lemma_app_order_transitive(av, y, old_apps[b - 1]);
                }
            } else if a < p {
                assert(new_apps[a] == old_apps[a]);
                assert(new_apps[b] == old_apps[b - 1]);
                assert(app_order_le(old_apps[a], av));
                assert(app_order_le(av, old_apps[p as int]));
                if b - 1 > p {
                    assert(app_order_le(old_apps[p as int], old_apps[b - 1]));
                    lemma_app_order_transitive(av, old_apps[p as int], old_apps[b - 1]);
                }
                lemma_app_order_transitive(old_apps[a], av, old_apps[b - 1]);
            } else {
                assert(new_apps[a] == old_apps[a - 1]);
                assert(new_apps[b] == old_apps[b - 1]);
            }
        }
        assert forall|k: int| 0 <= k < items@.len() implies #[trigger] items@[k].key@
            == crate::text::spec_lowercase(items@[k].app.name@) by {
            if k < p {
                assert(items@[k] == before[k]);
            } else if k > p {
                assert(items@[k] == before[k - 1]);
            }
        }
    }
}

/// Lists the applications with an audio session on the default playback
/// device, given what Windows reports for each session: one entry per
/// process (from its first session; sessions of process 0 are skipped),
/// named by `session_app_name`, ordered by lowercased name and then by
/// process id.
pub fn list_native_audio_applications(sessions: &Vec<AudioSessionEntry>) -> (r: Vec<NativeAudioApplication>)
    ensures
        sorted_apps(app_views(r@)),
        app_views(r@).to_multiset() == session_applications(entry_views(sessions@)).to_multiset(),
{
    broadcast use vstd::seq_lib::group_to_multiset_ensures;
    broadcast use vstd::std_specs::hash::group_hash_axioms;

    let ghost views = entry_views(sessions@);
    let mut items: Vec<SortItem> = Vec::new();
    let mut seen: std::collections::HashSet<u32> = std::collections::HashSet::new();
    let mut i: usize = 0;
    proof {
        assert(item_apps(items@) =~= Seq::empty());
        assert(views.take(0) =~= Seq::empty());
    }
    while i < sessions.len()
        invariant
            0 <= i <= sessions.len(),
            views == entry_views(sessions@),
            forall|p: u32|
                #[trigger] seen@.contains(p) <==> (p != 0 && exists|j: int|
                    0 <= j < i && #[trigger] views[j].0 == p),
            sorted_apps(item_apps(items@)),
            keys_match(items@),
            item_apps(items@).to_multiset() == session_applications(views.take(i as int)).to_multiset(),
        decreases sessions.len() - i,
    {
        let e = &sessions[i];
        let pid = e.process_id;
        let ghost prefix = views.take(i + 1);
        assert(prefix.drop_last() =~= views.take(i as int));
        assert(views[i as int] == e@);
        assert(prefix.last() == e@);
        let found = seen.contains(&pid);
        let ghost seen_before = seen@;
        proof {
            if pid != 0 && !found {
                assert forall|j: int| 0 <= j < prefix.len() - 1 implies #[trigger] prefix[j].0 != pid by {
                    assert(prefix[j] == views[j]);
                    if views[j].0 == pid {
                        assert(seen@.contains(pid));
                    }
                }
            } else if pid != 0 {
                let j = choose|j: int| 0 <= j < i && #[trigger] views[j].0 == pid;
                assert(prefix[j] == views[j]);
            }
        }
        if pid != 0 && !found {
            seen.insert(pid);
            let name = session_name(e);
            let app = NativeAudioApplication { process_id: pid, name };
            let ghost av = app@;
            let ghost items_before = item_apps(items@);
            assert(av == (pid, session_app_name(prefix.last())));
            insert_sorted(&mut items, app);
            assert(session_applications(prefix) == session_applications(views.take(i as int)).push(
                av,
            ));
            assert(item_apps(items@).to_multiset() == items_before.to_multiset().insert(av));
            proof { vstd::seq_lib::to_multiset_build(session_applications(views.take(i as int)), av); }
            assert(session_applications(prefix).to_multiset() == session_applications(
                views.take(i as int),
            ).to_multiset().insert(av));
        } else {
            assert(session_applications(prefix) == session_applications(views.take(i as int)));
        }
        proof {
            assert forall|p: u32|
                #[trigger] seen@.contains(p) <==> (p != 0 && exists|j: int|
                    0 <= j < i + 1 && #[trigger] views[j].0 == p) by {
                if p != 0 && (exists|j: int| 0 <= j < i + 1 && #[trigger] views[j].0 == p) {
                    let j = choose|j: int| 0 <= j < i + 1 && #[trigger] views[j].0 == p;
                    if j < i {
                        assert(seen_before.contains(p));
                    } else {
                        assert(p == pid);
                    }
                }
                if seen@.contains(p) && !seen_before.contains(p) {
                    assert(p == pid);
                    assert(views[i as int].0 == p);
                }
            }
        }
        assert(prefix == views.take(i + 1));
        i = i + 1;
    }
    assert(views.take(sessions.len() as int) =~= views);
    let ghost sorted = item_apps(items@);
    let mut r: Vec<NativeAudioApplication> = Vec::new();
    let mut rest = items;
    proof {
        assert(app_views(r@) + item_apps(rest@) =~= sorted);
    }
    while rest.len() > 0
        invariant
            sorted_apps(sorted),
            app_views(r@) + item_apps(rest@) == sorted,
        decreases rest.len(),
    {
        let ghost before_r = r@;
        let ghost before_rest = rest@;
        let it = rest.remove(0);
        r.push(it.app);
        assert(app_views(r@) + item_apps(rest@) =~= app_views(before_r) + item_apps(before_rest));
    }
    assert(app_views(r@) =~= sorted);
    r
}

} // verus!

verus! {

/// One buffer of captured PCM audio: its bytes, its frame count, how long
/// after the start of capture it arrived, whether WASAPI flagged it as
/// silent, and whether any of its bytes is non-zero.
pub struct AudioChunk {
    pub pcm: Vec<u8>,
    pub frames: u32,
    pub elapsed: std::time::Duration,
    pub wasapi_silent: bool,
    pub has_signal: bool,
}

/// One available microphone (capture) device: its WASAPI device id and
/// its display name.
pub struct MicrophoneDeviceInfo {
    pub id: String,
    pub name: String,
}

/// The part of a chunk spanning `[chunk_start, chunk_end)` that lies
/// inside the recording window `[window_start, window_end)`, when any does.
pub open spec fn spec_kept_window(chunk_start: i64, chunk_end: i64, window_start: i64, window_end: i64) -> Option<Span> {
    let lo = if chunk_start < window_start { window_start } else { chunk_start };
    let hi = if chunk_end > window_end { window_end } else { chunk_end };
    if lo < hi {
        Some((lo, hi))
    } else {
        None
    }
}

/// Cuts a chunk's time span to the recording window; `None` when the chunk
/// lies wholly outside it.
pub fn kept_window(chunk_start: i64, chunk_end: i64, window_start: i64, window_end: i64) -> (r: Option<Span>)
    ensures
        r == spec_kept_window(chunk_start, chunk_end, window_start, window_end),
        r matches Some(w) ==> window_start <= w.0 < w.1 <= window_end && chunk_start <= w.0 && w.1
            <= chunk_end,
{
    if chunk_end <= window_start || chunk_start >= window_end {
        return None;
    }
    let lo = if chunk_start < window_start { window_start } else { chunk_start };
    let hi = if chunk_end > window_end { window_end } else { chunk_end };
    if lo < hi {
        Some((lo, hi))
    } else {
        None
    }
}

/// Bytes per PCM frame: `channels * (bits_per_sample / 8)`.
pub fn block_align_bytes(channels: u16, bits_per_sample: u16) -> (r: usize)
    ensures
        r == channels * (bits_per_sample / 8),
{
    let bytes = (bits_per_sample / 8) as usize;
    assert((channels as usize) * bytes <= 65535 * 8191) by (nonlinear_arith)
        requires
            channels <= 65535,
            bytes <= 8191,
    ;
    (channels as usize) * bytes
}

/// Appends to `retained` the bytes of frames `[start_frame, end_frame)` of
/// one chunk (both ends clamped to the chunk's frame count), when that
/// range is non-empty and lies within the chunk's bytes.
pub fn retain_frames(
    retained: &mut Vec<u8>,
    pcm: &[u8],
    chunk_frames: u32,
    block_align: usize,
    start_frame: usize,
    end_frame: usize,
)
    requires
        chunk_frames * block_align <= usize::MAX,
    ensures
        ({
            let s = (if start_frame < chunk_frames { start_frame as int } else { chunk_frames as int }) * block_align;
            let e = (if end_frame < chunk_frames { end_frame as int } else { chunk_frames as int }) * block_align;
            final(retained)@ == if s < e && e <= pcm@.len() {
                old(retained)@ + pcm@.subrange(s, e)
            } else {
                old(retained)@
            }
        }),
{
    let frames = chunk_frames as usize;
    let sf = if start_frame < frames { start_frame } else { frames };
    let ef = if end_frame < frames { end_frame } else { frames };
    assert(sf * block_align <= frames * block_align) by (nonlinear_arith)
        requires
            sf <= frames,
    ;
    assert(ef * block_align <= frames * block_align) by (nonlinear_arith)
        requires
            ef <= frames,
    ;
    let start_byte = sf * block_align;
    let end_byte = ef * block_align;
    if start_byte < end_byte && end_byte <= pcm.len() {
        let mut k = start_byte;
        while k < end_byte
            invariant
                start_byte <= k <= end_byte <= pcm@.len(),
                retained@ == old(retained)@ + pcm@.subrange(start_byte as int, k as int),
            decreases end_byte - k,
        {
            retained.push(pcm[k]);
            assert(pcm@.subrange(start_byte as int, k + 1) =~= pcm@.subrange(start_byte as int, k as int).push(pcm@[k as int]));
            k = k + 1;
        }
    }
}

/// The little-endian bytes of a 16-bit value.
pub open spec fn le16(x: nat) -> Seq<u8> {
    seq![(x % 256) as u8, ((x / 256) % 256) as u8]
}

/// The little-endian bytes of a 32-bit value.
pub open spec fn le32(x: nat) -> Seq<u8> {
    seq![(x % 256) as u8, ((x / 256) % 256) as u8, ((x / 65536) % 256) as u8, ((x / 16777216) % 256) as u8]
}

/// The 44-byte header of a canonical WAV file holding `data_len` bytes of
/// PCM: a `RIFF`/`WAVE` container with a 16-byte `fmt ` chunk (format tag 3,
/// IEEE float, for 32-bit samples; otherwise 1, integer PCM) followed by the
/// `data` chunk's header.
pub open spec fn wav_header_bytes(data_len: nat, sample_rate: nat, channels: nat, bits_per_sample: nat) -> Seq<u8> {
    let format_tag: nat = if bits_per_sample == 32 { 3 } else { 1 };
    let block_align = channels * (bits_per_sample / 8);
    let byte_rate = sample_rate * block_align;
    // "RIFF", "WAVE", "fmt " and "data" in ASCII.
    seq![82u8, 73, 70, 70] + le32(36 + data_len) + seq![87u8, 65, 86, 69] + seq![102u8, 109, 116, 32]
        + le32(16) + le16(format_tag) + le16(channels) + le32(sample_rate) + le32(byte_rate)
        + le16(block_align) + le16(bits_per_sample) + seq![100u8, 97, 116, 97] + le32(data_len)
}

fn push_le16(out: &mut Vec<u8>, x: u16)
    ensures
        final(out)@ == old(out)@ + le16(x as nat),
{
    out.push((x % 256) as u8);
    out.push(((x / 256) % 256) as u8);
    assert(final(out)@ =~= old(out)@ + le16(x as nat));
}

fn push_le32(out: &mut Vec<u8>, x: u32)
    ensures
        final(out)@ == old(out)@ + le32(x as nat),
{
    out.push((x % 256) as u8);
    out.push(((x / 256) % 256) as u8);
    out.push(((x / 65536) % 256) as u8);
    out.push(((x / 16777216) % 256) as u8);
    assert(final(out)@ =~= old(out)@ + le32(x as nat));
}

fn push_bytes4(out: &mut Vec<u8>, a: u8, b: u8, c: u8, d: u8)
    ensures
        final(out)@ == old(out)@ + seq![a, b, c, d],
{
    out.push(a);
    out.push(b);
    out.push(c);
    out.push(d);
    assert(final(out)@ =~= old(out)@ + seq![a, b, c, d]);
}

/// The WAV header written before `pcm_len` bytes of captured PCM (the
/// length field holds `pcm_len` truncated to 32 bits, as a `u32` cast gives
/// it).
pub fn wav_header(pcm_len: usize, sample_rate: u32, channels: u16, bits_per_sample: u16) -> (r: Vec<u8>)
    requires
        channels * (bits_per_sample / 8) <= u16::MAX,
        sample_rate * (channels * (bits_per_sample / 8)) <= u32::MAX,
        36 + (pcm_len as u32) <= u32::MAX,
    ensures
        r@ == wav_header_bytes(
            (pcm_len as u32) as nat,
            sample_rate as nat,
            channels as nat,
            bits_per_sample as nat,
        ),
        r@.len() == 44,
{
    let format_tag: u16 = if bits_per_sample == 32 { 3 } else { 1 };
    let block_align: u16 = channels * (bits_per_sample / 8);
    let byte_rate: u32 = sample_rate * (block_align as u32);
    let data_len: u32 = pcm_len as u32;
    let riff_len: u32 = 36 + data_len;
    let mut out: Vec<u8> = Vec::new();
    push_bytes4(&mut out, 82, 73, 70, 70);
    push_le32(&mut out, riff_len);
    push_bytes4(&mut out, 87, 65, 86, 69);
    push_bytes4(&mut out, 102, 109, 116, 32);
    push_le32(&mut out, 16);
    push_le16(&mut out, format_tag);
    push_le16(&mut out, channels);
    push_le32(&mut out, sample_rate);
    push_le32(&mut out, byte_rate);
    push_le16(&mut out, block_align);
    push_le16(&mut out, bits_per_sample);
    push_bytes4(&mut out, 100, 97, 116, 97);
    push_le32(&mut out, data_len);
    assert(out@ =~= wav_header_bytes(data_len as nat, sample_rate as nat, channels as nat, bits_per_sample as nat));
    out
}

/// The 16-bit little-endian number stored at `at` in `h`.
pub open spec fn read_le16(h: Seq<u8>, at: int) -> nat {
    h[at] as nat + 256 * (h[at + 1] as nat)
}

/// The 32-bit little-endian number stored at `at` in `h`.
pub open spec fn read_le32(h: Seq<u8>, at: int) -> nat {
    read_le16(h, at) + 65536 * read_le16(h, at + 2)
}

proof fn lemma_le16_reads_back(x: nat)
    requires
        x < 65536,
    ensures
        read_le16(le16(x), 0) == x,
{
    assert(x / 256 < 256) by (nonlinear_arith)
        requires
            x < 65536,
    ;
    assert((x / 256) % 256 == x / 256);
    assert(x == 256 * (x / 256) + x % 256) by (nonlinear_arith);
}

proof fn lemma_le32_reads_back(x: nat)
    requires
        x < 0x1_0000_0000,
    ensures
        read_le32(le32(x), 0) == x,
{
    let lo = x % 65536;
    let hi = x / 65536;
    assert(hi < 65536) by (nonlinear_arith)
        requires
            x < 0x1_0000_0000,
            hi == x / 65536,
    ;
    assert(x == 65536 * hi + lo) by (nonlinear_arith)
        requires
            lo == x % 65536,
            hi == x / 65536,
    ;
    lemma_le16_reads_back(lo);
    lemma_le16_reads_back(hi);
    assert(x % 256 == lo % 256) by (nonlinear_arith)
        requires
            x == 65536 * hi + lo,
    ;
    assert((x / 256) % 256 == lo / 256) by (nonlinear_arith)
        requires
            x == 65536 * hi + lo,
            0 <= lo < 65536,
    ;
    assert(x / 16777216 == hi / 256) by (nonlinear_arith)
        requires
            x == 65536 * hi + lo,
            0 <= lo < 65536,
    ;
    assert((x / 65536) % 256 == hi % 256);
    assert(read_le16(le32(x), 0) == read_le16(le16(lo), 0));
    assert(read_le16(le32(x), 2) == read_le16(le16(hi), 0));
}

proof fn lemma_read_le16_at(h: Seq<u8>, at: int, x: nat)
    requires
        0 <= at,
        at + 2 <= h.len(),
        x < 65536,
        h.subrange(at, at + 2) == le16(x),
    ensures
        read_le16(h, at) == x,
{
    lemma_le16_reads_back(x);
    assert(h[at] == le16(x)[0]);
    assert(h[at + 1] == le16(x)[1]);
}

proof fn lemma_read_le32_at(h: Seq<u8>, at: int, x: nat)
    requires
        0 <= at,
        at + 4 <= h.len(),
        x < 0x1_0000_0000,
        h.subrange(at, at + 4) == le32(x),
    ensures
        read_le32(h, at) == x,
{
    lemma_le32_reads_back(x);
    assert(h[at] == le32(x)[0]);
    assert(h[at + 1] == le32(x)[1]);
    assert(h[at + 2] == le32(x)[2]);
    assert(h[at + 3] == le32(x)[3]);
}

/// A reader of the header gets back what it was written from: the channel
/// count, sample rate, bits per sample and data length are read back as
/// given, the block align is `channels * bits_per_sample / 8`, the byte
/// rate is the sample rate times the block align, and the RIFF length
/// counts the 36 header bytes after it plus the data.
pub proof fn law_wav_header_reads_back(data_len: nat, sample_rate: nat, channels: nat, bits_per_sample: nat)
    requires
        sample_rate < 0x1_0000_0000,
        channels < 65536,
        bits_per_sample < 65536,
        channels * (bits_per_sample / 8) < 65536,
        sample_rate * (channels * (bits_per_sample / 8)) < 0x1_0000_0000,
        36 + data_len < 0x1_0000_0000,
    ensures
        ({
            let h = wav_header_bytes(data_len, sample_rate, channels, bits_per_sample);
            &&& h.len() == 44
            &&& read_le32(h, 4) == 36 + data_len
            &&& read_le16(h, 22) == channels
            &&& read_le32(h, 24) == sample_rate
            &&& read_le16(h, 34) == bits_per_sample
            &&& read_le16(h, 32) == read_le16(h, 22) * (read_le16(h, 34) / 8)
            &&& read_le32(h, 28) == read_le32(h, 24) * read_le16(h, 32)
            &&& read_le32(h, 40) == data_len
        }),
{
    let block_align = channels * (bits_per_sample / 8);
    let byte_rate = sample_rate * block_align;
    let h = wav_header_bytes(data_len, sample_rate, channels, bits_per_sample);
    assert(h.len() == 44);
    assert(h.subrange(4, 8) =~= le32(36 + data_len));
    assert(h.subrange(22, 24) =~= le16(channels));
    assert(h.subrange(24, 28) =~= le32(sample_rate));
    assert(h.subrange(28, 32) =~= le32(byte_rate));
    assert(h.subrange(32, 34) =~= le16(block_align));
    assert(h.subrange(34, 36) =~= le16(bits_per_sample));
    assert(h.subrange(40, 44) =~= le32(data_len));
    lemma_read_le32_at(h, 4, 36 + data_len);
    lemma_read_le16_at(h, 22, channels);
    lemma_read_le32_at(h, 24, sample_rate);
    lemma_read_le32_at(h, 28, byte_rate);
    lemma_read_le16_at(h, 32, block_align);
    lemma_read_le16_at(h, 34, bits_per_sample);
    lemma_read_le32_at(h, 40, data_len);
}

} // verus!

verus! {

/// Whether any byte of `pcm` is non-zero.
pub open spec fn has_nonzero(pcm: Seq<u8>) -> bool {
    exists|k: int| 0 <= k < pcm.len() && pcm[k] != 0
}

/// Turns one packet read from WASAPI into a chunk: a packet WASAPI flags
/// as silent has its bytes zeroed, and a chunk has signal when it was not
/// flagged silent and some byte of it is non-zero.
pub fn packet_chunk(buffer: Vec<u8>, frames_read: u32, elapsed: std::time::Duration, silent: bool) -> (r:
    AudioChunk)
    ensures
        r.frames == frames_read,
        r.elapsed == elapsed,
        r.wasapi_silent == silent,
        r.pcm@.len() == buffer@.len(),
        silent ==> forall|k: int| 0 <= k < r.pcm@.len() ==> r.pcm@[k] == 0,
        !silent ==> r.pcm@ == buffer@,
        r.has_signal == (!silent && has_nonzero(buffer@)),
{
    let mut pcm = buffer;
    let mut any = false;
    let mut i: usize = 0;
    while i < pcm.len()
        invariant
            i <= pcm.len(),
            pcm@.len() == buffer@.len(),
            silent ==> forall|k: int| 0 <= k < i ==> pcm@[k] == 0,
            forall|k: int| i <= k < pcm@.len() ==> pcm@[k] == buffer@[k],
            !silent ==> forall|k: int| 0 <= k < pcm@.len() ==> pcm@[k] == buffer@[k],
            any == (exists|k: int| 0 <= k < i && buffer@[k] != 0),
        decreases pcm.len() - i,
    {
        if pcm[i] != 0 {
            any = true;
        }
        if silent {
            pcm.set(i, 0);
        }
        i = i + 1;
    }
    AudioChunk { pcm, frames: frames_read, elapsed, wasapi_silent: silent, has_signal: !silent && any }
}

/// The number of frames in `chunks`.
pub open spec fn frames_total(chunks: Seq<AudioChunk>) -> nat
    decreases chunks.len(),
{
    if chunks.len() == 0 {
        0
    } else {
        frames_total(chunks.drop_last()) + chunks.last().frames as nat
    }
}

/// The counts a stopped source reports: its buffers (as a `u32`, cut as a
/// cast cuts it) and its frames.
pub fn chunk_totals(chunks: &Vec<AudioChunk>) -> (r: (u32, u64))
    requires
        frames_total(chunks@) <= u64::MAX,
    ensures
        r.0 == chunks@.len() as u32,
        r.1 == frames_total(chunks@),
{
    let mut frames: u64 = 0;
    let mut i: usize = 0;
    while i < chunks.len()
        invariant
            i <= chunks.len(),
            frames == frames_total(chunks@.take(i as int)),
            frames_total(chunks@) <= u64::MAX,
        decreases chunks.len() - i,
    {
        proof {
            assert(chunks@.take(i + 1).drop_last() =~= chunks@.take(i as int));
            lemma_frames_total_prefix(chunks@, i + 1);
        }
        frames = frames + chunks[i].frames as u64;
        i = i + 1;
    }
    proof {
        assert(chunks@.take(chunks.len() as int) =~= chunks@);
    }
    (chunks.len() as u32, frames)
}

proof fn lemma_frames_total_prefix(chunks: Seq<AudioChunk>, n: int)
    requires
        0 <= n <= chunks.len(),
    ensures
        frames_total(chunks.take(n)) <= frames_total(chunks),
    decreases chunks.len(),
{
    if n < chunks.len() {
        assert(chunks.drop_last().take(n) =~= chunks.take(n));
        lemma_frames_total_prefix(chunks.drop_last(), n);
    } else {
        assert(chunks.take(n) =~= chunks);
    }
}

} // verus!
