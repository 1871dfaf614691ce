//! The telemetry overlay (F3): a compact rolling-window table in the
//! lower-right corner, so the log console stays clear of perf lines.
//!
//! The overlay keeps only its open flag and the latest report. Drawing
//! is laid out here as a list of panel lines (position, colors, text);
//! putting them on the terminal is the caller's part.
use crate::fb::Pixel;
use crate::telemetry::{FrameProfile, ReportLine, is_counts, is_report, spec_report_due};
use std::time::Instant;
use crate::text::{chars_of, dec, dec_chars, pad_left, pad_right, push_chars, push_spaces, string_from_chars, string_push_str};
use vstd::prelude::*;

verus! {

/// Width of the panel when the terminal is wide enough.
pub const PANEL_W: u16 = 48;

/// Timing rows shown.
pub const TOP_ROWS: usize = 8;

pub const TITLE: &'static str = " F3 · perf · top timings + counters ";

pub const HEADER: &'static str = " label                  avg      calls/f ";

pub const SEPARATOR: &'static str = " ───────── counters ──────────────── ";

pub open spec fn bg() -> Pixel {
    Pixel { r: 8, g: 8, b: 18 }
}

pub open spec fn title_bg() -> Pixel {
    Pixel { r: 30, g: 20, b: 45 }
}

pub open spec fn border() -> Pixel {
    Pixel { r: 255, g: 180, b: 60 }
}

pub open spec fn fg() -> Pixel {
    Pixel { r: 200, g: 220, b: 255 }
}

pub open spec fn hot() -> Pixel {
    Pixel { r: 255, g: 120, b: 120 }
}

pub open spec fn warm() -> Pixel {
    Pixel { r: 255, g: 210, b: 110 }
}

pub open spec fn cool() -> Pixel {
    Pixel { r: 140, g: 200, b: 255 }
}

/// The first `n` characters of `s` (all of it when shorter).
pub open spec fn take_chars(s: Seq<char>, n: int) -> Seq<char> {
    if s.len() <= n {
        s
    } else {
        s.take(n)
    }
}

pub open spec fn spaces(n: int) -> Seq<char> {
    Seq::new(n as nat, |i: int| ' ')
}

/// `s` cut or space-filled to exactly `w` characters.
pub open spec fn spec_pad(s: Seq<char>, w: int) -> Seq<char> {
    if s.len() >= w {
        s.take(w)
    } else {
        s + spaces(w - s.len())
    }
}

/// The first `n` characters of `s`.
pub fn truncate(s: &str, n: usize) -> (r: String)
    ensures
        r@ == take_chars(s@, n as int),
{
    let cs = chars_of(s);
    if cs.len() <= n {
        string_from_chars(&cs)
    } else {
        let t = crate::text::slice_chars(&cs, 0, n);
        assert(t@ =~= s@.take(n as int));
        string_from_chars(&t)
    }
}

/// `s` cut or space-filled to exactly `w` characters.
pub fn pad(s: &str, w: u16) -> (r: String)
    ensures
        r@ == spec_pad(s@, w as int),
{
    let cs = chars_of(s);
    let w = w as usize;
    if cs.len() >= w {
        let t = crate::text::slice_chars(&cs, 0, w);
        assert(t@ =~= s@.take(w as int));
        string_from_chars(&t)
    } else {
        let mut r = string_from_chars(&cs);
        push_spaces(&mut r, w - cs.len());
        r
    }
}

/// One run of text on the panel: where, in which colors (`fg` is left
/// as it was when `None`), and what.
pub struct PanelLine {
    pub x: u16,
    pub y: u16,
    pub bg: Pixel,
    pub fg: Option<Pixel>,
    pub text: String,
}

pub open spec fn line_view(l: PanelLine) -> (u16, u16, Pixel, Option<Pixel>, Seq<char>) {
    (l.x, l.y, l.bg, l.fg, l.text@)
}

/// Color of a timing row by its microseconds per frame.
pub open spec fn timing_color(us: u128) -> Pixel {
    if us >= 2000 {
        hot()
    } else if us >= 500 {
        warm()
    } else {
        cool()
    }
}

/// Color of a counter row by its value.
pub open spec fn counter_color(v: u64) -> Pixel {
    if v > 5000 {
        hot()
    } else if v > 500 {
        warm()
    } else {
        cool()
    }
}

pub open spec fn timing_text(l: ReportLine) -> Seq<char> {
    " "@ + pad_right(take_chars(l.label@, 20), 20) + " "@ + pad_left(
        dec((l.avg_per_frame / 1000) as nat),
        5,
    ) + "µs  "@ + pad_left(dec(l.calls_per_frame as nat), 4) + "    "@
}

pub open spec fn counter_text(label: Seq<char>, v: u64) -> Seq<char> {
    " "@ + pad_right(take_chars(label, 20), 20) + " "@ + pad_left(dec(v as nat), 10) + " "@
}

/// Panel geometry for a `cols` × `rows` terminal and `n` counters:
/// (x0, y0, w, h).
pub open spec fn geometry(cols: u16, rows: u16, n: int) -> (int, int, int, int) {
    let panel_h = TOP_ROWS + (n as u16) + 4;
    let w = if PANEL_W <= cols {
        PANEL_W as int
    } else {
        cols as int
    };
    let h = if panel_h <= rows {
        panel_h as int
    } else {
        rows as int
    };
    (cols - w, rows - h, w, h)
}

/// How many counters fit: at least one, then until the panel's bottom.
pub open spec fn counters_shown(n: int, h: int) -> int {
    if n == 0 {
        0
    } else {
        let room = if h - 11 >= 1 {
            h - 11
        } else {
            1
        };
        if n <= room {
            n
        } else {
            room
        }
    }
}

pub open spec fn views(ls: Seq<PanelLine>) -> Seq<(u16, u16, Pixel, Option<Pixel>, Seq<char>)> {
    ls.map_values(|l: PanelLine| line_view(l))
}

proof fn lemma_views_push(ls: Seq<PanelLine>, l: PanelLine)
    ensures
        views(ls.push(l)) == views(ls).push(line_view(l)),
{
    assert(views(ls.push(l)) =~= views(ls).push(line_view(l)));
}

pub open spec fn wipe_part(x0: int, y0: int, w: int, h: int) -> Seq<(u16, u16, Pixel, Option<Pixel>, Seq<char>)> {
    Seq::new(h as nat, |r: int| (x0 as u16, (y0 + r) as u16, bg(), Some(fg()), spaces(w)))
}

pub open spec fn timing_part(cached: Seq<ReportLine>, x0: int, y0: int, w: int, m: int) -> Seq<(u16, u16, Pixel, Option<Pixel>, Seq<char>)> {
    Seq::new(
        m as nat,
        |k: int|
            (
                x0 as u16,
                (y0 + 2 + k) as u16,
                bg(),
                Some(timing_color(cached[k].avg_per_frame / 1000)),
                spec_pad(timing_text(cached[k]), w),
            ),
    )
}

pub open spec fn blank_part(x0: int, y0: int, w: int, m: int) -> Seq<(u16, u16, Pixel, Option<Pixel>, Seq<char>)> {
    Seq::new((TOP_ROWS - m) as nat, |k: int| (x0 as u16, (y0 + 2 + m + k) as u16, bg(), None::<Pixel>, spaces(w)))
}

pub open spec fn counter_part(counts: Seq<(&'static str, u64)>, x0: int, y0: int, w: int, shown: int) -> Seq<(u16, u16, Pixel, Option<Pixel>, Seq<char>)> {
    Seq::new(
        shown as nat,
        |j: int|
            (
                x0 as u16,
                (y0 + 11 + j) as u16,
                bg(),
                Some(counter_color(counts[j].1)),
                spec_pad(counter_text(counts[j].0@, counts[j].1), w),
            ),
    )
}

/// The panel, line by line: the wiped background, the title, the column
/// header, up to eight timing rows (empty slots blanked), the separator,
/// then the counters that fit.
pub open spec fn panel_spec(
    cached: Seq<ReportLine>,
    counts: Seq<(&'static str, u64)>,
    cols: u16,
    rows: u16,
) -> Seq<(u16, u16, Pixel, Option<Pixel>, Seq<char>)> {
    let (x0, y0, w, h) = geometry(cols, rows, counts.len() as int);
    let m = if cached.len() <= TOP_ROWS {
        cached.len() as int
    } else {
        TOP_ROWS as int
    };
    let title = take_chars(TITLE@, w);
    wipe_part(x0, y0, w, h) + seq![
        (x0 as u16, y0 as u16, title_bg(), Some(border()), title + spaces(w - title.len())),
        (x0 as u16, (y0 + 1) as u16, bg(), Some(warm()), spec_pad(HEADER@, w)),
    ] + timing_part(cached, x0, y0, w, m) + blank_part(x0, y0, w, m) + seq![
        (x0 as u16, (y0 + 10) as u16, bg(), Some(border()), spec_pad(SEPARATOR@, w)),
    ] + counter_part(counts, x0, y0, w, counters_shown(counts.len() as int, h))
}

fn push_padded_right(s: &mut String, t: &Vec<char>, w: usize)
    ensures
        final(s)@ == old(s)@ + pad_right(t@, w as nat),
{
    push_chars(s, t);
    if t.len() < w {
        push_spaces(s, w - t.len());
    }
    assert(final(s)@ =~= old(s)@ + pad_right(t@, w as nat));
}

fn push_padded_left(s: &mut String, t: &Vec<char>, w: usize)
    ensures
        final(s)@ == old(s)@ + pad_left(t@, w as nat),
{
    if t.len() < w {
        push_spaces(s, w - t.len());
    }
    push_chars(s, t);
    assert(final(s)@ =~= old(s)@ + pad_left(t@, w as nat));
}

fn timing_text_exec(l: &ReportLine) -> (s: String)
    ensures
        s@ == timing_text(*l),
{
    let mut s = String::new();
    string_push_str(&mut s, " ");
    let lab = chars_of(truncate(l.label, 20).as_str());
    push_padded_right(&mut s, &lab, 20);
    string_push_str(&mut s, " ");
    push_padded_left(&mut s, &dec_chars(l.avg_per_frame / 1000), 5);
    string_push_str(&mut s, "µs  ");
    push_padded_left(&mut s, &dec_chars(l.calls_per_frame as u128), 4);
    string_push_str(&mut s, "    ");
    assert(s@ =~= timing_text(*l));
    s
}

fn counter_text_exec(label: &str, v: u64) -> (s: String)
    ensures
        s@ == counter_text(label@, v),
{
    let mut s = String::new();
    string_push_str(&mut s, " ");
    let lab = chars_of(truncate(label, 20).as_str());
    push_padded_right(&mut s, &lab, 20);
    string_push_str(&mut s, " ");
    push_padded_left(&mut s, &dec_chars(v as u128), 10);
    string_push_str(&mut s, " ");
    assert(s@ =~= counter_text(label@, v));
    s
}

pub struct PerfOverlay {
    pub open: bool,
    /// Latest rolling-window report, replaced whenever the profile
    /// produces one.
    cached: Vec<ReportLine>,
}

impl PerfOverlay {
    pub closed spec fn cached_lines(&self) -> Seq<ReportLine> {
        self.cached@
    }

    pub closed spec fn is_open(&self) -> bool {
        self.open
    }

    pub fn toggle(&mut self)
        ensures
            final(self).is_open() == !old(self).is_open(),
            final(self).cached_lines() == old(self).cached_lines(),
    {
        self.open = !self.open;
    }

    /// Take the profile's report into the cache when it produces one
    /// (about once a second); otherwise keep the cached one. Whether a
    /// report is due is read off the clock; `pull_report_at` decides on it.
    pub fn pull_report(&mut self, perf: &mut FrameProfile)
        requires
            old(perf).wf(),
        ensures
            final(perf).wf(),
            final(self).is_open() == old(self).is_open(),
            final(perf).frame_times() == old(perf).frame_times(),
            final(perf).open_scopes() == old(perf).open_scopes(),
            final(perf).counters() == old(perf).counters(),
            ({
                // No report: cache and window unchanged.
                ||| final(self).cached_lines() == old(self).cached_lines() && final(perf).totals() == old(perf).totals()
                    && final(perf).calls() == old(perf).calls() && final(perf).frames() == old(perf).frames()
                    && final(perf).reported() == old(perf).reported()
                // A report: it is cached, and the window is reset.
                ||| is_report(final(self).cached_lines(), old(perf).totals(), old(perf).calls(), old(perf).frames())
                    && final(perf).totals() == Map::<Seq<char>, u128>::empty() && final(perf).calls() == Map::<
                    Seq<char>,
                    u32,
                >::empty() && final(perf).frames() == 0 && final(perf).reported()
            }),
            !old(perf).reported() ==> is_report(
                final(self).cached_lines(),
                old(perf).totals(),
                old(perf).calls(),
                old(perf).frames(),
            ),
    {
        match perf.maybe_report() {
            Some(lines) => {
                self.cached = lines;
            },
            None => {},
        }
    }

    /// The report step at time `at`, given the nanoseconds since the
    /// profile's last report (`None`: no report yet): when a report is
    /// due it replaces the cached one and the profile's window is reset;
    /// otherwise nothing changes.
    pub fn pull_report_at(&mut self, perf: &mut FrameProfile, at: Instant, since_last: Option<u128>)
        requires
            old(perf).wf(),
        ensures
            final(perf).wf(),
            final(self).is_open() == old(self).is_open(),
            final(perf).frame_times() == old(perf).frame_times(),
            final(perf).open_scopes() == old(perf).open_scopes(),
            final(perf).counters() == old(perf).counters(),
            spec_report_due(since_last) ==> is_report(
                final(self).cached_lines(),
                old(perf).totals(),
                old(perf).calls(),
                old(perf).frames(),
            ) && final(perf).totals() == Map::<Seq<char>, u128>::empty() && final(perf).calls() == Map::<
                Seq<char>,
                u32,
            >::empty() && final(perf).frames() == 0 && final(perf).reported(),
            !spec_report_due(since_last) ==> final(self).cached_lines() == old(self).cached_lines()
                && final(perf).totals() == old(perf).totals() && final(perf).calls() == old(perf).calls()
                && final(perf).frames() == old(perf).frames() && final(perf).reported() == old(perf).reported(),
    {
        match perf.maybe_report_at(at, since_last) {
            Some(lines) => {
                self.cached = lines;
            },
            None => {},
        }
    }

    /// The panel's lines for a `cols` × `rows` terminal, or none while
    /// the overlay is closed. The counters are the profile's, in label
    /// order.
    pub fn panel_lines(&self, cols: u16, rows: u16, perf: &FrameProfile) -> (lines: Vec<PanelLine>)
        requires
            perf.wf(),
            (perf.num_counters() as u16) + 12 <= u16::MAX,
        ensures
            !self.is_open() ==> lines@.len() == 0,
            self.is_open() ==> exists|counts: Seq<(&'static str, u64)>|
                is_counts(counts, perf.counters()) && views(lines@) == panel_spec(
                    self.cached_lines(),
                    counts,
                    cols,
                    rows,
                ),
    {
        if !self.open {
            return Vec::new();
        }
        let counts = perf.counts_snapshot();
        let lines = self.layout(cols, rows, &counts);
        lines
    }

    /// Lay the panel out for the given counters.
    #[verifier::rlimit(40)]
    pub fn layout(&self, cols: u16, rows: u16, counts: &Vec<(&'static str, u64)>) -> (lines: Vec<
        PanelLine,
    >)
        requires
            (counts@.len() as u16) + 12 <= u16::MAX,
        ensures
            views(lines@) == panel_spec(self.cached_lines(), counts@, cols, rows),
    {
        let n16 = counts.len() as u16;
        let panel_h: u16 = TOP_ROWS as u16 + n16 + 4;
        let w: u16 = if PANEL_W <= cols {
            PANEL_W
        } else {
            cols
        };
        let h: u16 = if panel_h <= rows {
            panel_h
        } else {
            rows
        };
        let x0 = cols - w;
        let y0 = rows - h;
        assert(geometry(cols, rows, counts@.len() as int) == (x0 as int, y0 as int, w as int, h as int));
        let mut lines: Vec<PanelLine> = Vec::new();
        push_wipe(&mut lines, x0, y0, w, h);
        // Title and column header.
        let title_trim = truncate(TITLE, w as usize);
        let tlen = chars_of(title_trim.as_str()).len();
        let mut title = title_trim;
        push_spaces(&mut title, w as usize - tlen);
        let ghost tt = take_chars(TITLE@, w as int);
        assert(title@ =~= tt + spaces(w - tt.len()));
        let l = PanelLine { x: x0, y: y0, bg: Pixel::rgb(30, 20, 45), fg: Some(Pixel::rgb(255, 180, 60)), text: title };
        proof {
            lemma_views_push(lines@, l);
        }
        lines.push(l);
        let l = PanelLine { x: x0, y: y0 + 1, bg: Pixel::rgb(8, 8, 18), fg: Some(Pixel::rgb(255, 210, 110)), text: pad(HEADER, w) };
        proof {
            lemma_views_push(lines@, l);
        }
        lines.push(l);
        let m: usize = if self.cached.len() <= TOP_ROWS {
            self.cached.len()
        } else {
            TOP_ROWS
        };
        push_timing(&mut lines, &self.cached, x0, y0, w, m);
        push_blanks(&mut lines, x0, y0, w, m);
        let l = PanelLine { x: x0, y: y0 + 10, bg: Pixel::rgb(8, 8, 18), fg: Some(Pixel::rgb(255, 180, 60)), text: pad(SEPARATOR, w) };
        proof {
            lemma_views_push(lines@, l);
        }
        lines.push(l);
        push_counters(&mut lines, counts, x0, y0, w, h);
        assert(views(lines@) =~= panel_spec(self.cached@, counts@, cols, rows));
        lines
    }
}

fn push_wipe(lines: &mut Vec<PanelLine>, x0: u16, y0: u16, w: u16, h: u16)
    requires
        y0 + h <= u16::MAX,
    ensures
        views(final(lines)@) == views(old(lines)@) + wipe_part(x0 as int, y0 as int, w as int, h as int),
{
    let ghost start = views(lines@);
    let mut r: u16 = 0;
    while r < h
        invariant
            r <= h,
            y0 + h <= u16::MAX,
            views(lines@) == start + wipe_part(x0 as int, y0 as int, w as int, h as int).take(r as int),
        decreases h - r,
    {
        let mut t = String::new();
        push_spaces(&mut t, w as usize);
        assert(t@ =~= spaces(w as int));
        let l = PanelLine { x: x0, y: y0 + r, bg: Pixel::rgb(8, 8, 18), fg: Some(Pixel::rgb(200, 220, 255)), text: t };
        proof {
            lemma_views_push(lines@, l);
        }
        lines.push(l);
        assert(wipe_part(x0 as int, y0 as int, w as int, h as int).take(r + 1) =~= wipe_part(
            x0 as int,
            y0 as int,
            w as int,
            h as int,
        ).take(r as int).push(line_view(l)));
        r = r + 1;
    }
    assert(wipe_part(x0 as int, y0 as int, w as int, h as int).take(h as int) =~= wipe_part(
        x0 as int,
        y0 as int,
        w as int,
        h as int,
    ));
}

fn push_timing(lines: &mut Vec<PanelLine>, cached: &Vec<ReportLine>, x0: u16, y0: u16, w: u16, m: usize)
    requires
        m <= TOP_ROWS,
        m <= cached@.len(),
        y0 + 10 <= u16::MAX,
    ensures
        views(final(lines)@) == views(old(lines)@) + timing_part(cached@, x0 as int, y0 as int, w as int, m as int),
{
    let ghost start = views(lines@);
    let mut k: usize = 0;
    while k < m
        invariant
            k <= m,
            m <= TOP_ROWS,
            m <= cached@.len(),
            y0 + 10 <= u16::MAX,
            views(lines@) == start + timing_part(cached@, x0 as int, y0 as int, w as int, m as int).take(k as int),
        decreases m - k,
    {
        let line = cached[k];
        let us = line.avg_per_frame / 1000;
        let color = if us >= 2000 {
            Pixel::rgb(255, 120, 120)
        } else if us >= 500 {
            Pixel::rgb(255, 210, 110)
        } else {
            Pixel::rgb(140, 200, 255)
        };
        let text = timing_text_exec(&line);
        let l = PanelLine { x: x0, y: y0 + 2 + k as u16, bg: Pixel::rgb(8, 8, 18), fg: Some(color), text: pad(text.as_str(), w) };
        proof {
            lemma_views_push(lines@, l);
        }
        lines.push(l);
        assert(timing_part(cached@, x0 as int, y0 as int, w as int, m as int).take(k + 1) =~= timing_part(
            cached@,
            x0 as int,
            y0 as int,
            w as int,
            m as int,
        ).take(k as int).push(line_view(l)));
        k = k + 1;
    }
    assert(timing_part(cached@, x0 as int, y0 as int, w as int, m as int).take(m as int) =~= timing_part(
        cached@,
        x0 as int,
        y0 as int,
        w as int,
        m as int,
    ));
}

fn push_blanks(lines: &mut Vec<PanelLine>, x0: u16, y0: u16, w: u16, m: usize)
    requires
        m <= TOP_ROWS,
        y0 + 10 <= u16::MAX,
    ensures
        views(final(lines)@) == views(old(lines)@) + blank_part(x0 as int, y0 as int, w as int, m as int),
{
    let ghost start = views(lines@);
    let mut k: usize = m;
    while k < TOP_ROWS
        invariant
            m <= k <= TOP_ROWS,
            y0 + 10 <= u16::MAX,
            views(lines@) == start + blank_part(x0 as int, y0 as int, w as int, m as int).take(k - m),
        decreases TOP_ROWS - k,
    {
        let mut t = String::new();
        push_spaces(&mut t, w as usize);
        assert(t@ =~= spaces(w as int));
        let l = PanelLine { x: x0, y: y0 + 2 + k as u16, bg: Pixel::rgb(8, 8, 18), fg: None, text: t };
        proof {
            lemma_views_push(lines@, l);
        }
        lines.push(l);
        assert(blank_part(x0 as int, y0 as int, w as int, m as int).take(k + 1 - m) =~= blank_part(
            x0 as int,
            y0 as int,
            w as int,
            m as int,
        ).take(k - m).push(line_view(l)));
        k = k + 1;
    }
    assert(blank_part(x0 as int, y0 as int, w as int, m as int).take(TOP_ROWS - m) =~= blank_part(
        x0 as int,
        y0 as int,
        w as int,
        m as int,
    ));
}

fn push_counters(lines: &mut Vec<PanelLine>, counts: &Vec<(&'static str, u64)>, x0: u16, y0: u16, w: u16, h: u16)
    requires
        y0 + h <= u16::MAX,
        h < 12 ==> y0 == 0,
    ensures
        views(final(lines)@) == views(old(lines)@) + counter_part(
            counts@,
            x0 as int,
            y0 as int,
            w as int,
            counters_shown(counts@.len() as int, h as int),
        ),
{
    let ghost start = views(lines@);
    let ghost shown = counters_shown(counts@.len() as int, h as int);
    let mut j: usize = 0;
    let mut done = false;
    while j < counts.len() && !done
        invariant
            j <= counts@.len(),
            y0 + h <= u16::MAX,
            h < 12 ==> y0 == 0,
            shown == counters_shown(counts@.len() as int, h as int),
            j <= shown,
            !done ==> (j == 0 || j + 11 < h),
            done ==> j == shown,
            views(lines@) == start + counter_part(counts@, x0 as int, y0 as int, w as int, shown).take(j as int),
        decreases counts@.len() - j,
    {
        let (label, value) = counts[j];
        let color = if value > 5000 {
            Pixel::rgb(255, 120, 120)
        } else if value > 500 {
            Pixel::rgb(255, 210, 110)
        } else {
            Pixel::rgb(140, 200, 255)
        };
        let text = counter_text_exec(label, value);
        let row = y0 + 11 + j as u16;
        let l = PanelLine { x: x0, y: row, bg: Pixel::rgb(8, 8, 18), fg: Some(color), text: pad(text.as_str(), w) };
        proof {
            lemma_views_push(lines@, l);
        }
        lines.push(l);
        assert(counter_part(counts@, x0 as int, y0 as int, w as int, shown).take(j + 1) =~= counter_part(
            counts@,
            x0 as int,
            y0 as int,
            w as int,
            shown,
        ).take(j as int).push(line_view(l)));
        if row + 1 >= y0 + h {
            done = true;
        }
        j = j + 1;
    }
    assert(counter_part(counts@, x0 as int, y0 as int, w as int, shown).take(shown) =~= counter_part(
        counts@,
        x0 as int,
        y0 as int,
        w as int,
        shown,
    ));
}

impl Default for PerfOverlay {
    fn default() -> (o: Self)
        ensures
            !o.is_open(),
            o.cached_lines() == Seq::<ReportLine>::empty(),
    {
        PerfOverlay { open: false, cached: Vec::new() }
    }
}

} // verus!
