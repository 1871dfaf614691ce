//! Lightweight per-loop frame profiler. Scopes are opened and closed by
//! label (`begin` / `end`); each frame's timings are folded into a
//! rolling window by `end_frame`, and about once a second the window is
//! turned into a report sorted by average time per frame.
//!
//! Counts (entity populations, queue depths) flow through `set_count`;
//! the latest value per label is kept.
//!
//! Durations are nanoseconds. Accumulators saturate rather than wrap.
use crate::clock::{elapsed_nanos, nanos_between, now};
use crate::label_map::LabelMap;
use crate::text::{
    bytes_le, bytes_le_exec, dec, dec_chars, lemma_bytes_le_total, lemma_bytes_le_transitive,
    pad_left, pad_right, push_chars, push_spaces, string_push_str,
};
use std::time::Instant;
use vstd::prelude::*;
use vstd::multiset::Multiset;
use vstd::utf8::encode_utf8;

verus! {

broadcast use vstd::seq_lib::group_to_multiset_ensures;

/// How often the rolling window is turned into a report (1 s).
pub const REPORT_PERIOD_NANOS: u128 = 1_000_000_000;

/// A report is due when none was made yet, or when at least a report
/// period has passed since the last one.
pub open spec fn spec_report_due(since_last: Option<u128>) -> bool {
    match since_last {
        Some(e) => e >= REPORT_PERIOD_NANOS,
        None => true,
    }
}

/// Whether a report is due, given the nanoseconds since the last report
/// (`None` when there was none).
pub fn report_due(since_last: Option<u128>) -> (b: bool)
    ensures
        b == spec_report_due(since_last),
{
    match since_last {
        Some(e) => e >= REPORT_PERIOD_NANOS,
        None => true,
    }
}

pub open spec fn get_or0<V: Copy>(m: Map<Seq<char>, V>, k: Seq<char>, zero: V) -> V {
    if m.contains_key(k) {
        m[k]
    } else {
        zero
    }
}

pub open spec fn sat_add_u128(a: u128, b: u128) -> u128 {
    if a + b > u128::MAX {
        u128::MAX
    } else {
        (a + b) as u128
    }
}

pub open spec fn sat_inc_u32(a: u32) -> u32 {
    if a == u32::MAX {
        u32::MAX
    } else {
        (a + 1) as u32
    }
}

/// `a` with `b`'s times added in, label by label.
pub open spec fn merge_times(a: Map<Seq<char>, u128>, b: Map<Seq<char>, u128>) -> Map<
    Seq<char>,
    u128,
> {
    Map::new(
        |k: Seq<char>| a.contains_key(k) || b.contains_key(k),
        |k: Seq<char>| sat_add_u128(get_or0(a, k, 0u128), get_or0(b, k, 0u128)),
    )
}

/// The divisor a report averages over: the frames in the window, or one
/// when there were none.
pub open spec fn frame_divisor(frames: u32) -> u32 {
    if frames == 0 {
        1
    } else {
        frames
    }
}

#[derive(Clone, Copy, Debug)]
pub struct ReportLine {
    pub label: &'static str,
    /// Average time per frame in the window (nanoseconds).
    pub avg_per_frame: u128,
    /// Total time in the window (nanoseconds).
    pub total_this_window: u128,
    pub calls_per_frame: u32,
}

/// `l` is the report line the window gives for its label.
pub open spec fn line_for(
    l: ReportLine,
    totals: Map<Seq<char>, u128>,
    calls: Map<Seq<char>, u32>,
    frames: u32,
) -> bool {
    &&& totals.contains_key(l.label@)
    &&& l.total_this_window == totals[l.label@]
    &&& l.avg_per_frame == totals[l.label@] / (frame_divisor(frames) as u128)
    &&& l.calls_per_frame == get_or0(calls, l.label@, 0u32) / frame_divisor(frames)
}

/// `lines` is the report of the window: one line per label with time,
/// no label twice, slowest (by average) first.
pub open spec fn is_report(
    lines: Seq<ReportLine>,
    totals: Map<Seq<char>, u128>,
    calls: Map<Seq<char>, u32>,
    frames: u32,
) -> bool {
    &&& forall|i: int| 0 <= i < lines.len() ==> #[trigger] line_for(lines[i], totals, calls, frames)
    &&& forall|k: Seq<char>|
        #[trigger] totals.contains_key(k) ==> exists|i: int| 0 <= i < lines.len() && lines[i].label@ == k
    &&& forall|i: int, j: int|
        0 <= i < lines.len() && 0 <= j < lines.len() && i != j ==> #[trigger] lines[i].label@
            != #[trigger] lines[j].label@
    &&& forall|i: int, j: int|
        0 <= i <= j < lines.len() ==> #[trigger] lines[i].avg_per_frame >= #[trigger] lines[j].avg_per_frame
}

/// `out` is the whole-run totals list: one `(label, total, calls)` per
/// label with time, no label twice, largest total first.
pub open spec fn is_totals(
    out: Seq<(&'static str, u128, u32)>,
    totals: Map<Seq<char>, u128>,
    calls: Map<Seq<char>, u32>,
) -> bool {
    &&& forall|i: int|
        0 <= i < out.len() ==> {
            &&& totals.contains_key(#[trigger] out[i].0@)
            &&& out[i].1 == totals[out[i].0@]
            &&& out[i].2 == get_or0(calls, out[i].0@, 0u32)
        }
    &&& forall|k: Seq<char>|
        #[trigger] totals.contains_key(k) ==> exists|i: int| 0 <= i < out.len() && out[i].0@ == k
    &&& forall|i: int, j: int|
        0 <= i < out.len() && 0 <= j < out.len() && i != j ==> #[trigger] out[i].0@ != #[trigger] out[j].0@
    &&& forall|i: int, j: int| 0 <= i <= j < out.len() ==> #[trigger] out[i].1 >= #[trigger] out[j].1
}

/// `out` lists the counters, one per label, in byte order of the labels.
pub open spec fn is_counts(out: Seq<(&'static str, u64)>, counts: Map<Seq<char>, u64>) -> bool {
    &&& forall|i: int|
        0 <= i < out.len() ==> counts.contains_key(#[trigger] out[i].0@) && out[i].1 == counts[out[i].0@]
    &&& forall|k: Seq<char>|
        #[trigger] counts.contains_key(k) ==> exists|i: int| 0 <= i < out.len() && out[i].0@ == k
    &&& forall|i: int, j: int|
        0 <= i < j < out.len() ==> bytes_le(encode_utf8(#[trigger] out[i].0@), encode_utf8(
            #[trigger] out[j].0@,
        )) && out[i].0@ != out[j].0@
}

pub struct FrameProfile {
    /// Start times of the scopes that are open.
    starts: LabelMap<Instant>,
    /// Time accumulated this frame, per label.
    this_frame: LabelMap<u128>,
    /// Rolling window totals.
    rolling_total: LabelMap<u128>,
    /// Rolling invocation counts.
    rolling_calls: LabelMap<u32>,
    /// Latest counter values.
    counts: LabelMap<u64>,
    frames_in_window: u32,
    /// When the last report was produced.
    last_report: Option<Instant>,
}

impl FrameProfile {
    pub closed spec fn wf(&self) -> bool {
        &&& self.starts.wf()
        &&& self.this_frame.wf()
        &&& self.rolling_total.wf()
        &&& self.rolling_calls.wf()
        &&& self.counts.wf()
    }

    /// Labels whose scope is open.
    pub closed spec fn open_scopes(&self) -> Set<Seq<char>> {
        self.starts.view().dom()
    }

    pub closed spec fn frame_times(&self) -> Map<Seq<char>, u128> {
        self.this_frame.view()
    }

    pub closed spec fn totals(&self) -> Map<Seq<char>, u128> {
        self.rolling_total.view()
    }

    pub closed spec fn calls(&self) -> Map<Seq<char>, u32> {
        self.rolling_calls.view()
    }

    pub closed spec fn counters(&self) -> Map<Seq<char>, u64> {
        self.counts.view()
    }

    /// Number of counter labels.
    pub closed spec fn num_counters(&self) -> nat {
        self.counts.entry_seq().len()
    }

    pub closed spec fn frames(&self) -> u32 {
        self.frames_in_window
    }

    /// A report has been produced before.
    pub closed spec fn reported(&self) -> bool {
        self.last_report is Some
    }

    pub fn new() -> (p: Self)
        ensures
            p.wf(),
            p.open_scopes() == Set::<Seq<char>>::empty(),
            p.frame_times() == Map::<Seq<char>, u128>::empty(),
            p.totals() == Map::<Seq<char>, u128>::empty(),
            p.calls() == Map::<Seq<char>, u32>::empty(),
            p.counters() == Map::<Seq<char>, u64>::empty(),
            p.frames() == 0,
            !p.reported(),
    {
        FrameProfile {
            starts: LabelMap::new(),
            this_frame: LabelMap::new(),
            rolling_total: LabelMap::new(),
            rolling_calls: LabelMap::new(),
            counts: LabelMap::new(),
            frames_in_window: 0,
            last_report: None,
        }
    }

    /// Open the scope `label` now (re-opening restarts it).
    pub fn begin(&mut self, label: &'static str)
        requires
            old(self).wf(),
        ensures
            final(self).wf(),
            final(self).open_scopes() == old(self).open_scopes().insert(label@),
            final(self).frame_times() == old(self).frame_times(),
            final(self).totals() == old(self).totals(),
            final(self).calls() == old(self).calls(),
            final(self).counters() == old(self).counters(),
            final(self).frames() == old(self).frames(),
            final(self).reported() == old(self).reported(),
    {
        let t = now();
        self.starts.insert(label, t);
    }

    /// Add `elapsed` nanoseconds to `label`'s time this frame and count
    /// one call.
    pub fn record_scope(&mut self, label: &'static str, elapsed: u128)
        requires
            old(self).wf(),
        ensures
            final(self).wf(),
            final(self).frame_times() == old(self).frame_times().insert(
                label@,
                sat_add_u128(get_or0(old(self).frame_times(), label@, 0u128), elapsed),
            ),
            final(self).calls() == old(self).calls().insert(
                label@,
                sat_inc_u32(get_or0(old(self).calls(), label@, 0u32)),
            ),
            final(self).open_scopes() == old(self).open_scopes(),
            final(self).totals() == old(self).totals(),
            final(self).counters() == old(self).counters(),
            final(self).frames() == old(self).frames(),
            final(self).reported() == old(self).reported(),
    {
        let cur = match self.this_frame.get(label) {
            Some(d) => d,
            None => 0,
        };
        self.this_frame.insert(label, cur.saturating_add(elapsed));
        let calls = match self.rolling_calls.get(label) {
            Some(c) => c,
            None => 0,
        };
        self.rolling_calls.insert(label, calls.saturating_add(1));
    }

    /// Close the scope `label`: its elapsed time since `begin` is added
    /// to this frame and one call is counted. Closing a scope that is
    /// not open does nothing.
    pub fn end(&mut self, label: &'static str)
        requires
            old(self).wf(),
        ensures
            final(self).wf(),
            final(self).open_scopes() == old(self).open_scopes().remove(label@),
            !old(self).open_scopes().contains(label@) ==> final(self).frame_times() == old(self).frame_times() && final(self).calls() == old(self).calls(),
            old(self).open_scopes().contains(label@) ==> (exists|d: u128|
                final(self).frame_times() == old(self).frame_times().insert(
                    label@,
                    sat_add_u128(get_or0(old(self).frame_times(), label@, 0u128), d),
                )) && final(self).calls() == old(self).calls().insert(
                label@,
                sat_inc_u32(get_or0(old(self).calls(), label@, 0u32)),
            ),
            final(self).totals() == old(self).totals(),
            final(self).counters() == old(self).counters(),
            final(self).frames() == old(self).frames(),
            final(self).reported() == old(self).reported(),
    {
        match self.starts.remove(label) {
            Some(start) => {
                let dur = elapsed_nanos(&start);
                self.record_scope(label, dur);
                assert(self.frame_times() == old(self).frame_times().insert(
                    label@,
                    sat_add_u128(get_or0(old(self).frame_times(), label@, 0u128), dur),
                ));
            },
            None => {},
        }
    }

    /// Record an entity / queue population; the latest value is kept.
    pub fn set_count(&mut self, label: &'static str, n: usize)
        requires
            old(self).wf(),
        ensures
            final(self).wf(),
            final(self).counters() == old(self).counters().insert(label@, n as u64),
            final(self).open_scopes() == old(self).open_scopes(),
            final(self).frame_times() == old(self).frame_times(),
            final(self).totals() == old(self).totals(),
            final(self).calls() == old(self).calls(),
            final(self).frames() == old(self).frames(),
            final(self).reported() == old(self).reported(),
    {
        self.counts.insert(label, n as u64);
    }

    /// Fold this frame's times into the window.
    fn fold_frame(&mut self)
        requires
            old(self).wf(),
        ensures
            final(self).wf(),
            final(self).totals() == merge_times(old(self).totals(), old(self).frame_times()),
            final(self).frame_times() == Map::<Seq<char>, u128>::empty(),
            final(self).open_scopes() == old(self).open_scopes(),
            final(self).calls() == old(self).calls(),
            final(self).counters() == old(self).counters(),
            final(self).frames() == old(self).frames(),
            final(self).reported() == old(self).reported(),
    {
        let n = self.this_frame.len();
        let ghost frame = self.this_frame;
        proof {
            frame.lemma_entries();
        }
        let mut i: usize = 0;
        while i < n
            invariant
                self.wf(),
                frame.wf(),
                self.this_frame == frame,
                n == frame.entry_seq().len(),
                i <= n,
                self.totals() == merge_times(
                    old(self).totals(),
                    crate::label_map::entries_map(frame.entry_seq().take(i as int)),
                ),
                self.open_scopes() == old(self).open_scopes(),
                self.calls() == old(self).calls(),
                self.counters() == old(self).counters(),
                self.frames() == old(self).frames(),
                self.reported() == old(self).reported(),
            decreases n - i,
        {
            let (label, dur) = self.this_frame.entry(i);
            let cur = match self.rolling_total.get(label) {
                Some(d) => d,
                None => 0,
            };
            self.rolling_total.insert(label, cur.saturating_add(dur));
            proof {
                let es = frame.entry_seq();
                let pre = crate::label_map::entries_map(es.take(i as int));
                let post = crate::label_map::entries_map(es.take(i + 1));
                assert(es.take(i + 1).drop_last() =~= es.take(i as int));
                assert(post == pre.insert(label@, dur));
                assert(!pre.contains_key(label@)) by {
                    frame.lemma_entries();
                    crate::label_map::lemma_keys_distinct_take(es, i as int);
                    crate::label_map::lemma_entries_map(es.take(i as int));
                    if pre.contains_key(label@) {
                        let j = choose|j: int| 0 <= j < i && es.take(i as int)[j].0@ == label@;
                        assert(es[j].0@ == es[i as int].0@);
                    }
                }
                assert(self.totals() =~= merge_times(old(self).totals(), post));
            }
            i = i + 1;
        }
        proof {
            assert(frame.entry_seq().take(n as int) =~= frame.entry_seq());
        }
        self.this_frame.clear();
    }

    /// Call once at the end of every frame: folds the frame's timings
    /// into the rolling window and counts the frame.
    pub fn end_frame(&mut self)
        requires
            old(self).wf(),
        ensures
            final(self).wf(),
            final(self).totals() == merge_times(old(self).totals(), old(self).frame_times()),
            final(self).frame_times() == Map::<Seq<char>, u128>::empty(),
            final(self).frames() == sat_inc_u32(old(self).frames()),
            final(self).open_scopes() == old(self).open_scopes(),
            final(self).calls() == old(self).calls(),
            final(self).counters() == old(self).counters(),
            final(self).reported() == old(self).reported(),
    {
        self.fold_frame();
        self.frames_in_window = self.frames_in_window.saturating_add(1);
    }

    /// Turn the window into its report and reset the window.
    fn build_report(&mut self) -> (lines: Vec<ReportLine>)
        requires
            old(self).wf(),
        ensures
            final(self).wf(),
            is_report(lines@, old(self).totals(), old(self).calls(), old(self).frames()),
            final(self).totals() == Map::<Seq<char>, u128>::empty(),
            final(self).calls() == Map::<Seq<char>, u32>::empty(),
            final(self).frames() == 0,
            final(self).frame_times() == old(self).frame_times(),
            final(self).open_scopes() == old(self).open_scopes(),
            final(self).counters() == old(self).counters(),
            final(self).reported() == old(self).reported(),
    {
        let frames: u32 = if self.frames_in_window == 0 {
            1
        } else {
            self.frames_in_window
        };
        let ghost totals = self.totals();
        let ghost calls_map = self.calls();
        let ghost tm = self.rolling_total;
        proof {
            tm.lemma_entries();
        }
        let n = self.rolling_total.len();
        let mut items: Vec<ReportLine> = Vec::new();
        let mut i: usize = 0;
        while i < n
            invariant
                self.wf(),
                tm.wf(),
                self.rolling_total == tm,
                totals == tm.view(),
                calls_map == self.calls(),
                frames == frame_divisor(old(self).frames()),
                self.frames() == old(self).frames(),
                n == tm.entry_seq().len(),
                i <= n,
                items@.len() == i,
                forall|j: int|
                    0 <= j < i ==> #[trigger] items@[j].label == tm.entry_seq()[j].0 && line_for(
                        items@[j],
                        totals,
                        calls_map,
                        old(self).frames(),
                    ),
            decreases n - i,
        {
            let (label, total) = self.rolling_total.entry(i);
            proof {
                tm.lemma_entries();
                assert(tm.entry_seq()[i as int].0@ == label@);
                assert(tm.view()[tm.entry_seq()[i as int].0@] == tm.entry_seq()[i as int].1);
                assert(totals.contains_key(label@));
            }
            let calls = match self.rolling_calls.get(label) {
                Some(c) => c,
                None => 0,
            };
            items.push(
                ReportLine {
                    label,
                    avg_per_frame: total / (frames as u128),
                    total_this_window: total,
                    calls_per_frame: calls / frames,
                },
            );
            i = i + 1;
        }
        proof {
            let es = tm.entry_seq();
            assert(items@.no_duplicates()) by {
                assert forall|a: int, b: int|
                    0 <= a < items@.len() && 0 <= b < items@.len() && a != b implies items@[a]
                    != items@[b] by {
                    assert(items@[a].label == es[a].0);
                    assert(items@[b].label == es[b].0);
                    assert(crate::label_map::keys_distinct(es));
                    assert(es[a].0@ != es[b].0@);
                }
            }
            assert forall|k: Seq<char>| #[trigger] totals.contains_key(k) implies exists|j: int|
                0 <= j < items@.len() && items@[j].label@ == k by {
                let j = choose|j: int| 0 <= j < es.len() && es[j].0@ == k;
                assert(items@[j].label == es[j].0);
            }
        }
        let lines = sort_lines(items);
        proof {
            let es = tm.entry_seq();
            items@.lemma_multiset_has_no_duplicates();
            lines@.lemma_multiset_has_no_duplicates_conv();
            assert forall|a: int| 0 <= a < lines@.len() implies #[trigger] line_for(
                lines@[a],
                totals,
                calls_map,
                old(self).frames(),
            ) by {
                assert(lines@.contains(lines@[a]));
            }
            assert forall|a: int, b: int|
                0 <= a < lines@.len() && 0 <= b < lines@.len() && a != b implies #[trigger] lines@[a].label@
                != #[trigger] lines@[b].label@ by {
                assert(lines@.contains(lines@[a]));
                assert(lines@.contains(lines@[b]));
                assert(line_for(lines@[a], totals, calls_map, old(self).frames()));
                assert(line_for(lines@[b], totals, calls_map, old(self).frames()));
                if lines@[a].label@ == lines@[b].label@ {
                    // Two lines for one label carry the same values.
                    assert(lines@[a].label == lines@[b].label) by {
                        let ia = choose|j: int| 0 <= j < items@.len() && items@[j] == lines@[a];
                        let ib = choose|j: int| 0 <= j < items@.len() && items@[j] == lines@[b];
                        assert(es[ia].0@ == es[ib].0@);
                        assert(crate::label_map::keys_distinct(es));
                        assert(ia == ib);
                    }
                    assert(lines@[a] == lines@[b]);
                }
            }
            assert forall|k: Seq<char>| #[trigger] totals.contains_key(k) implies exists|j: int|
                0 <= j < lines@.len() && lines@[j].label@ == k by {
                let j = choose|j: int| 0 <= j < items@.len() && items@[j].label@ == k;
                assert(items@.contains(items@[j]));
                let m = choose|m: int| 0 <= m < lines@.len() && lines@[m] == items@[j];
            }
        }
        self.rolling_total.clear();
        self.rolling_calls.clear();
        self.frames_in_window = 0;
        lines
    }

    /// If a report period has passed since the last report (or none was
    /// made yet), produce the window's report and reset the window;
    /// otherwise return `None` and change nothing. Whether the period has
    /// passed is read off the clock; `maybe_report_at` decides on it.
    pub fn maybe_report(&mut self) -> (r: Option<Vec<ReportLine>>)
        requires
            old(self).wf(),
        ensures
            final(self).wf(),
            !old(self).reported() ==> r is Some,
            r is None ==> final(self).totals() == old(self).totals() && final(self).calls() == old(self).calls() && final(self).frames() == old(self).frames() && final(self).reported() == old(self).reported(),
            r matches Some(lines) ==> is_report(
                lines@,
                old(self).totals(),
                old(self).calls(),
                old(self).frames(),
            ) && final(self).totals() == Map::<Seq<char>, u128>::empty() && final(self).calls()
                == Map::<Seq<char>, u32>::empty() && final(self).frames() == 0 && final(self).reported(),
            final(self).frame_times() == old(self).frame_times(),
            final(self).open_scopes() == old(self).open_scopes(),
            final(self).counters() == old(self).counters(),
    {
        let t = now();
        let since_last = match &self.last_report {
            Some(last) => Some(nanos_between(&t, last)),
            None => None,
        };
        self.maybe_report_at(t, since_last)
    }

    /// The report decision at time `at`, given the nanoseconds since the
    /// last report (`None`: no report yet). When a report is due, the
    /// window's report is produced, the window reset and `at` kept as the
    /// time of this report; otherwise nothing changes.
    pub fn maybe_report_at(&mut self, at: Instant, since_last: Option<u128>) -> (r: Option<Vec<ReportLine>>)
        requires
            old(self).wf(),
        ensures
            final(self).wf(),
            r is Some <==> spec_report_due(since_last),
            r is None ==> final(self).totals() == old(self).totals() && final(self).calls() == old(self).calls() && final(self).frames() == old(self).frames() && final(self).reported() == old(self).reported(),
            r matches Some(lines) ==> is_report(
                lines@,
                old(self).totals(),
                old(self).calls(),
                old(self).frames(),
            ) && final(self).totals() == Map::<Seq<char>, u128>::empty() && final(self).calls()
                == Map::<Seq<char>, u32>::empty() && final(self).frames() == 0 && final(self).reported(),
            final(self).frame_times() == old(self).frame_times(),
            final(self).open_scopes() == old(self).open_scopes(),
            final(self).counters() == old(self).counters(),
    {
        if !report_due(since_last) {
            return None;
        }
        self.last_report = Some(at);
        Some(self.build_report())
    }

    /// Drain the window and the current frame into `(label, total,
    /// calls)` triples, largest total first, and reset everything —
    /// regardless of the report cadence.
    pub fn take_totals(&mut self) -> (out: Vec<(&'static str, u128, u32)>)
        requires
            old(self).wf(),
        ensures
            final(self).wf(),
            is_totals(
                out@,
                merge_times(old(self).totals(), old(self).frame_times()),
                old(self).calls(),
            ),
            final(self).totals() == Map::<Seq<char>, u128>::empty(),
            final(self).calls() == Map::<Seq<char>, u32>::empty(),
            final(self).frame_times() == Map::<Seq<char>, u128>::empty(),
            final(self).frames() == 0,
            final(self).open_scopes() == old(self).open_scopes(),
            final(self).counters() == old(self).counters(),
            final(self).reported() == old(self).reported(),
    {
        self.fold_frame();
        let ghost totals = self.totals();
        let ghost calls_map = self.calls();
        let ghost tm = self.rolling_total;
        proof {
            tm.lemma_entries();
        }
        let n = self.rolling_total.len();
        let mut items: Vec<(&'static str, u128, u32)> = Vec::new();
        let mut i: usize = 0;
        while i < n
            invariant
                self.wf(),
                tm.wf(),
                self.rolling_total == tm,
                totals == tm.view(),
                calls_map == self.calls(),
                n == tm.entry_seq().len(),
                i <= n,
                items@.len() == i,
                forall|j: int|
                    0 <= j < i ==> {
                        &&& #[trigger] items@[j].0 == tm.entry_seq()[j].0
                        &&& totals.contains_key(items@[j].0@)
                        &&& items@[j].1 == totals[items@[j].0@]
                        &&& items@[j].2 == get_or0(calls_map, items@[j].0@, 0u32)
                    },
            decreases n - i,
        {
            let (label, total) = self.rolling_total.entry(i);
            proof {
                tm.lemma_entries();
                assert(tm.entry_seq()[i as int].0@ == label@);
                assert(tm.view()[tm.entry_seq()[i as int].0@] == tm.entry_seq()[i as int].1);
                assert(totals.contains_key(label@));
            }
            let calls = match self.rolling_calls.get(label) {
                Some(c) => c,
                None => 0,
            };
            items.push((label, total, calls));
            i = i + 1;
        }
        proof {
            let es = tm.entry_seq();
            assert(items@.no_duplicates()) by {
                assert forall|a: int, b: int|
                    0 <= a < items@.len() && 0 <= b < items@.len() && a != b implies items@[a]
                    != items@[b] by {
                    assert(items@[a].0 == es[a].0);
                    assert(items@[b].0 == es[b].0);
                    assert(crate::label_map::keys_distinct(es));
                    assert(es[a].0@ != es[b].0@);
                }
            }
        }
        let out = sort_totals(items);
        proof {
            let es = tm.entry_seq();
            items@.lemma_multiset_has_no_duplicates();
            out@.lemma_multiset_has_no_duplicates_conv();
            assert forall|a: int| 0 <= a < out@.len() implies {
                &&& totals.contains_key(#[trigger] out@[a].0@)
                &&& out@[a].1 == totals[out@[a].0@]
                &&& out@[a].2 == get_or0(calls_map, out@[a].0@, 0u32)
            } by {
                assert(out@.contains(out@[a]));
            }
            assert forall|a: int, b: int|
                0 <= a < out@.len() && 0 <= b < out@.len() && a != b implies #[trigger] out@[a].0@
                != #[trigger] out@[b].0@ by {
                assert(out@.contains(out@[a]));
                assert(out@.contains(out@[b]));
                let ia = choose|j: int| 0 <= j < items@.len() && items@[j] == out@[a];
                let ib = choose|j: int| 0 <= j < items@.len() && items@[j] == out@[b];
                assert(crate::label_map::keys_distinct(es));
                if out@[a].0@ == out@[b].0@ {
                    assert(es[ia].0@ == es[ib].0@);
                    assert(ia == ib);
                }
            }
            assert forall|k: Seq<char>| #[trigger] totals.contains_key(k) implies exists|j: int|
                0 <= j < out@.len() && out@[j].0@ == k by {
                let j = choose|j: int| 0 <= j < es.len() && es[j].0@ == k;
                assert(items@[j].0 == es[j].0);
                assert(items@.contains(items@[j]));
                let m = choose|m: int| 0 <= m < out@.len() && out@[m] == items@[j];
            }
        }
        self.rolling_total.clear();
        self.rolling_calls.clear();
        self.frames_in_window = 0;
        out
    }

    /// Current counter values as `(label, value)`, in label order.
    pub fn counts_snapshot(&self) -> (out: Vec<(&'static str, u64)>)
        requires
            self.wf(),
        ensures
            is_counts(out@, self.counters()),
            out@.len() == self.num_counters(),
    {
        let ghost cm = self.counts;
        proof {
            cm.lemma_entries();
        }
        let n = self.counts.len();
        let mut items: Vec<(&'static str, u64)> = Vec::new();
        let mut i: usize = 0;
        while i < n
            invariant
                cm == self.counts,
                cm.wf(),
                n == cm.entry_seq().len(),
                i <= n,
                items@ == cm.entry_seq().take(i as int),
            decreases n - i,
        {
            items.push(self.counts.entry(i));
            assert(cm.entry_seq().take(i + 1) =~= cm.entry_seq().take(i as int).push(
                cm.entry_seq()[i as int],
            ));
            i = i + 1;
        }
        assert(cm.entry_seq().take(n as int) =~= cm.entry_seq());
        let out = sort_counts(items);
        proof {
            let es = cm.entry_seq();
            assert forall|a: int| 0 <= a < out@.len() implies self.counters().contains_key(
                #[trigger] out@[a].0@,
            ) && out@[a].1 == self.counters()[out@[a].0@] by {
                assert(out@.contains(out@[a]));
            }
            assert forall|k: Seq<char>| #[trigger] self.counters().contains_key(k) implies exists|j: int|
                0 <= j < out@.len() && out@[j].0@ == k by {
                let j = choose|j: int| 0 <= j < es.len() && es[j].0@ == k;
                assert(es.contains(es[j]));
                let m = choose|m: int| 0 <= m < out@.len() && out@[m] == es[j];
            }
            assert forall|a: int, b: int| 0 <= a < b < out@.len() implies out@[a].0@ != out@[b].0@ by {
                assert(out@.contains(out@[a]));
                assert(out@.contains(out@[b]));
                let ia = choose|j: int| 0 <= j < es.len() && es[j] == out@[a];
                let ib = choose|j: int| 0 <= j < es.len() && es[j] == out@[b];
                if out@[a].0@ == out@[b].0@ {
                    assert(crate::label_map::keys_distinct(es));
                    assert(ia == ib);
                    assert(out@.no_duplicates());
                }
            }
        }
        out
    }
}

impl Default for FrameProfile {
    fn default() -> (p: Self)
        ensures
            p.wf(),
            p.open_scopes() == Set::<Seq<char>>::empty(),
            p.frame_times() == Map::<Seq<char>, u128>::empty(),
            p.totals() == Map::<Seq<char>, u128>::empty(),
            p.calls() == Map::<Seq<char>, u32>::empty(),
            p.counters() == Map::<Seq<char>, u64>::empty(),
            p.frames() == 0,
            !p.reported(),
    {
        FrameProfile::new()
    }
}

/// Selection sort of report lines, largest average first.
fn sort_lines(v: Vec<ReportLine>) -> (out: Vec<ReportLine>)
    ensures
        out@.to_multiset() == v@.to_multiset(),
        forall|i: int, j: int| 0 <= i <= j < out@.len() ==> #[trigger] out@[i].avg_per_frame >= #[trigger] out@[j].avg_per_frame,
        forall|x: ReportLine| out@.contains(x) <==> v@.contains(x),
{
    let mut work = v;
    let mut out: Vec<ReportLine> = Vec::new();
    while work.len() > 0
        invariant
            out@.to_multiset().add(work@.to_multiset()) == v@.to_multiset(),
            forall|i: int, j: int| 0 <= i <= j < out@.len() ==> #[trigger] out@[i].avg_per_frame >= #[trigger] out@[j].avg_per_frame,
            forall|i: int, j: int| 0 <= i < out@.len() && 0 <= j < work@.len() ==> #[trigger] out@[i].avg_per_frame >= #[trigger] work@[j].avg_per_frame,
        decreases work.len(),
    {
        let mut m: usize = 0;
        let mut k: usize = 1;
        while k < work.len()
            invariant
                0 < k <= work@.len(),
                m < k,
                forall|j: int| 0 <= j < k ==> work@[m as int].avg_per_frame >= #[trigger] work@[j].avg_per_frame,
            decreases work.len() - k,
        {
            if work[k].avg_per_frame > work[m].avg_per_frame {
                m = k;
            }
            k = k + 1;
        }
        let ghost before = work@;
        let x = work.remove(m);
        proof {
            assert(work@ == before.remove(m as int));
            assert(work@.to_multiset() =~= before.to_multiset().remove(x));
            assert(out@.push(x).to_multiset() =~= out@.to_multiset().insert(x));
            assert forall|j: int| 0 <= j < work@.len() implies x.avg_per_frame >= #[trigger] work@[j].avg_per_frame by {
                let oj = if j < m { j } else { j + 1 };
                assert(work@[j] == before[oj]);
            }
            assert forall|i: int, j: int| 0 <= i < out@.len() && 0 <= j < work@.len() implies #[trigger] out@[i].avg_per_frame >= #[trigger] work@[j].avg_per_frame by {
                let oj = if j < m { j } else { j + 1 };
                assert(work@[j] == before[oj]);
            }
        }
        out.push(x);
    }
    proof {
        assert(work@.to_multiset() =~= Multiset::<ReportLine>::empty());
        assert(out@.to_multiset() =~= v@.to_multiset());
        assert forall|x: ReportLine| out@.contains(x) <==> v@.contains(x) by {
            assert(out@.to_multiset().count(x) == v@.to_multiset().count(x));
        }
    }
    out
}

/// Selection sort of `(label, total, calls)`, largest total first.
fn sort_totals(v: Vec<(&'static str, u128, u32)>) -> (out: Vec<(&'static str, u128, u32)>)
    ensures
        out@.to_multiset() == v@.to_multiset(),
        forall|i: int, j: int| 0 <= i <= j < out@.len() ==> #[trigger] out@[i].1 >= #[trigger] out@[j].1,
        forall|x: (&'static str, u128, u32)| out@.contains(x) <==> v@.contains(x),
{
    let mut work = v;
    let mut out: Vec<(&'static str, u128, u32)> = Vec::new();
    while work.len() > 0
        invariant
            out@.to_multiset().add(work@.to_multiset()) == v@.to_multiset(),
            forall|i: int, j: int| 0 <= i <= j < out@.len() ==> #[trigger] out@[i].1 >= #[trigger] out@[j].1,
            forall|i: int, j: int| 0 <= i < out@.len() && 0 <= j < work@.len() ==> #[trigger] out@[i].1 >= #[trigger] work@[j].1,
        decreases work.len(),
    {
        let mut m: usize = 0;
        let mut k: usize = 1;
        while k < work.len()
            invariant
                0 < k <= work@.len(),
                m < k,
                forall|j: int| 0 <= j < k ==> work@[m as int].1 >= #[trigger] work@[j].1,
            decreases work.len() - k,
        {
            if work[k].1 > work[m].1 {
                m = k;
            }
            k = k + 1;
        }
        let ghost before = work@;
        let x = work.remove(m);
        proof {
            assert(work@ == before.remove(m as int));
            assert(work@.to_multiset() =~= before.to_multiset().remove(x));
            assert(out@.push(x).to_multiset() =~= out@.to_multiset().insert(x));
            assert forall|j: int| 0 <= j < work@.len() implies x.1 >= #[trigger] work@[j].1 by {
                let oj = if j < m { j } else { j + 1 };
                assert(work@[j] == before[oj]);
            }
            assert forall|i: int, j: int| 0 <= i < out@.len() && 0 <= j < work@.len() implies #[trigger] out@[i].1 >= #[trigger] work@[j].1 by {
                let oj = if j < m { j } else { j + 1 };
                assert(work@[j] == before[oj]);
            }
        }
        out.push(x);
    }
    proof {
        assert(work@.to_multiset() =~= Multiset::<(&'static str, u128, u32)>::empty());
        assert(out@.to_multiset() =~= v@.to_multiset());
        assert forall|x: (&'static str, u128, u32)| out@.contains(x) <==> v@.contains(x) by {
            assert(out@.to_multiset().count(x) == v@.to_multiset().count(x));
        }
    }
    out
}

/// Selection sort of `(label, value)` by label bytes, smallest first.
fn sort_counts(v: Vec<(&'static str, u64)>) -> (out: Vec<(&'static str, u64)>)
    requires
        crate::label_map::keys_distinct(v@),
    ensures
        forall|x: (&'static str, u64)| out@.contains(x) <==> v@.contains(x),
        out@.no_duplicates(),
        out@.len() == v@.len(),
        forall|i: int, j: int|
            0 <= i < j < out@.len() ==> bytes_le(encode_utf8(#[trigger] out@[i].0@), encode_utf8(
                #[trigger] out@[j].0@,
            )),
{
    let mut work = v;
    let mut out: Vec<(&'static str, u64)> = Vec::new();
    proof {
        assert(v@.no_duplicates()) by {
            assert forall|a: int, b: int| 0 <= a < v@.len() && 0 <= b < v@.len() && a != b implies v@[a] != v@[b] by {
                assert(v@[a].0@ != v@[b].0@);
            }
        }
    }
    while work.len() > 0
        invariant
            out@.to_multiset().add(work@.to_multiset()) == v@.to_multiset(),
            v@.no_duplicates(),
            forall|i: int, j: int|
                0 <= i < j < out@.len() ==> bytes_le(encode_utf8(#[trigger] out@[i].0@), encode_utf8(
                    #[trigger] out@[j].0@,
                )),
            forall|i: int, j: int|
                0 <= i < out@.len() && 0 <= j < work@.len() ==> bytes_le(encode_utf8(#[trigger] out@[i].0@), encode_utf8(
                    #[trigger] work@[j].0@,
                )),
        decreases work.len(),
    {
        let mut m: usize = 0;
        let mut k: usize = 1;
        proof {
            crate::text::lemma_bytes_le_reflexive(encode_utf8(work@[0].0@));
        }
        while k < work.len()
            invariant
                0 < k <= work@.len(),
                m < k,
                forall|j: int| 0 <= j < k ==> bytes_le(encode_utf8(work@[m as int].0@), encode_utf8(#[trigger] work@[j].0@)),
            decreases work.len() - k,
        {
            if !bytes_le_exec(work[m].0.as_bytes(), work[k].0.as_bytes()) {
                proof {
                    lemma_bytes_le_total(encode_utf8(work@[m as int].0@), encode_utf8(work@[k as int].0@));
                    assert forall|j: int| 0 <= j < k implies bytes_le(encode_utf8(work@[k as int].0@), encode_utf8(#[trigger] work@[j].0@)) by {
                        lemma_bytes_le_transitive(encode_utf8(work@[k as int].0@), encode_utf8(work@[m as int].0@), encode_utf8(work@[j].0@));
                    }
                    crate::text::lemma_bytes_le_reflexive(encode_utf8(work@[k as int].0@));
                }
                m = k;
            } else {
                proof {
                    assert(bytes_le(encode_utf8(work@[m as int].0@), encode_utf8(work@[k as int].0@)));
                }
            }
            k = k + 1;
        }
        let ghost before = work@;
        let x = work.remove(m);
        proof {
            assert(work@ == before.remove(m as int));
            assert(work@.to_multiset() =~= before.to_multiset().remove(x));
            assert(out@.push(x).to_multiset() =~= out@.to_multiset().insert(x));
            assert forall|j: int| 0 <= j < work@.len() implies bytes_le(encode_utf8(x.0@), encode_utf8(#[trigger] work@[j].0@)) by {
                let oj = if j < m { j } else { j + 1 };
                assert(work@[j] == before[oj]);
            }
            assert forall|i: int, j: int| 0 <= i < out@.len() && 0 <= j < work@.len() implies bytes_le(encode_utf8(#[trigger] out@[i].0@), encode_utf8(#[trigger] work@[j].0@)) by {
                let oj = if j < m { j } else { j + 1 };
                assert(work@[j] == before[oj]);
            }
        }
        out.push(x);
    }
    proof {
        assert(work@.to_multiset() =~= Multiset::<(&'static str, u64)>::empty());
        assert(out@.to_multiset() =~= v@.to_multiset());
        assert forall|x: (&'static str, u64)| out@.contains(x) <==> v@.contains(x) by {
            assert(out@.to_multiset().count(x) == v@.to_multiset().count(x));
        }
        v@.lemma_multiset_has_no_duplicates();
        out@.lemma_multiset_has_no_duplicates_conv();
        assert(out@.to_multiset().len() == v@.to_multiset().len());
    }
    out
}

/// What `ReportLine::format` prints.
pub open spec fn spec_format(l: ReportLine) -> Seq<char> {
    pad_right(l.label@, 22) + " avg "@ + pad_left(dec((l.avg_per_frame / 1000) as nat), 5)
        + "µs  calls/f "@ + pad_left(dec(l.calls_per_frame as nat), 4) + "  window "@ + dec(
        (l.total_this_window / 1_000_000) as nat,
    ) + "ms"@
}

impl ReportLine {
    /// One log line: label, average µs per frame, calls per frame and
    /// the window's total milliseconds.
    pub fn format(&self) -> (s: String)
        ensures
            s@ == spec_format(*self),
    {
        let mut s = String::new();
        string_push_str(&mut s, self.label);
        let llen = crate::text::chars_of(self.label).len();
        if llen < 22 {
            push_spaces(&mut s, 22 - llen);
        }
        string_push_str(&mut s, " avg ");
        let avg = dec_chars(self.avg_per_frame / 1000);
        if avg.len() < 5 {
            push_spaces(&mut s, 5 - avg.len());
        }
        push_chars(&mut s, &avg);
        string_push_str(&mut s, "µs  calls/f ");
        let calls = dec_chars(self.calls_per_frame as u128);
        if calls.len() < 4 {
            push_spaces(&mut s, 4 - calls.len());
        }
        push_chars(&mut s, &calls);
        string_push_str(&mut s, "  window ");
        let ms = dec_chars(self.total_this_window / 1_000_000);
        push_chars(&mut s, &ms);
        string_push_str(&mut s, "ms");
        assert(s@ =~= spec_format(*self));
        s
    }
}

} // verus!
