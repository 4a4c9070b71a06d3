//! Playlist model, playlist validation and schedule construction.
//!
//! Reading `playlist.json` into these types is the host's job; which slides
//! play, in what order, with which paths, durations and transitions is decided here.

use vstd::prelude::*;

use crate::json::{same_json, JsonValue};
use crate::manifest::{parse_transition_kind, transition_named};
use crate::text::{
    chars_of, concat2, concat3, concat4, decimal, decimal_string, ends_with_char, owned,
    starts_with_char, text_contains, text_ends_with, text_is_empty, text_starts_with, trim,
    trimmed,
};
use crate::transition::TransitionKind;

verus! {

/// Filename for playlist configuration.
pub const PLAYLIST_FILENAME: &'static str = "playlist.json";

/// Fallback display settings for entries that do not override them.
#[derive(Debug, Clone, Default)]
pub struct PlaylistDefaults {
    /// How long each slide is shown (seconds); overridden by a per-entry value.
    pub duration_seconds: Option<u32>,
    /// Transition played when a slide enters the screen.
    pub transition_in: Option<String>,
    /// Transition played when a slide leaves the screen.
    pub transition_out: Option<String>,
    /// Optional screensaver (burn-in protection) configuration.
    pub screensaver: Option<ScreensaverConfig>,
}

/// Screensaver / burn-in protection configuration.
///
/// After `timeout_seconds` of continuous display the playlist is suppressed
/// and an intermission scene runs for `duration_seconds`; then the playlist
/// resumes where it left off.
#[derive(Debug, Clone, Copy, PartialEq, Eq, Structural)]
pub struct ScreensaverConfig {
    /// Seconds of continuous display before the screensaver activates. Default: 300.
    pub timeout_seconds: u32,
    /// How long (seconds) the screensaver runs before resuming the playlist. Default: 60.
    pub duration_seconds: u32,
}

impl Default for ScreensaverConfig {
    fn default() -> (c: Self)
        ensures
            c.timeout_seconds == 300,
            c.duration_seconds == 60,
    {
        ScreensaverConfig { timeout_seconds: 300, duration_seconds: 60 }
    }
}

/// A single entry in the `slides` array of `playlist.json`.
#[derive(Debug, Clone, Default)]
pub struct PlaylistEntry {
    /// Path to the `.vzglyd` archive or slide directory, relative to the slides directory.
    pub path: String,
    /// Optional JSON result file watched by the host for this slide's live data.
    pub data_path: Option<String>,
    /// `Some(false)` skips this slide; absent means enabled.
    pub enabled: Option<bool>,
    /// Override display duration for this slide (seconds).
    pub duration_seconds: Option<u32>,
    /// Override transition-in for this slide.
    pub transition_in: Option<String>,
    /// Override transition-out for this slide.
    pub transition_out: Option<String>,
    /// Optional JSON parameters written to the slide's configure buffer before init.
    pub params: Option<JsonValue>,
}

/// Whether an entry takes part in the schedule.
pub open spec fn entry_enabled(e: PlaylistEntry) -> bool {
    e.enabled != Some(false)
}

impl PlaylistEntry {
    /// Returns true if this entry is enabled: `enabled` is absent or `true`.
    pub fn is_enabled(&self) -> (r: bool)
        ensures
            r == entry_enabled(*self),
    {
        match self.enabled {
            Some(b) => b,
            None => true,
        }
    }
}

/// A playlist's defaults and ordered slides: everything in `playlist.json`
/// that decides the schedule (the output scale is applied by the host).
#[derive(Debug, Clone, Default)]
pub struct PlaylistContent {
    /// Default display settings applied to any entry that does not specify its own.
    pub defaults: PlaylistDefaults,
    /// Ordered list of slides to display.
    pub slides: Vec<PlaylistEntry>,
}

/// Whether some slide of `p` is enabled.
pub open spec fn any_enabled(p: PlaylistContent) -> bool {
    exists|i: int| 0 <= i < p.slides@.len() && entry_enabled(#[trigger] p.slides@[i])
}

/// Whether the playlist has a slide to show: some entry is enabled.
pub fn has_enabled_slide(p: &PlaylistContent) -> (r: bool)
    ensures
        r == any_enabled(*p),
{
    let mut i: usize = 0;
    while i < p.slides.len()
        invariant
            i <= p.slides@.len(),
            forall|k: int| 0 <= k < i ==> !entry_enabled(#[trigger] p.slides@[k]),
        decreases p.slides@.len() - i,
    {
        if p.slides[i].is_enabled() {
            return true;
        }
        i += 1;
    }
    false
}

/// One slide of a resolved schedule.
#[derive(Debug, Clone)]
pub struct ScheduledSlide {
    /// Path to the slide package, joined onto the base path.
    pub path: String,
    /// Watched JSON data source, resolved against the base path unless absolute.
    pub data_path: Option<String>,
    /// Duration in seconds from the entry or the playlist defaults; `None`
    /// means the engine default applies.
    pub duration_seconds: Option<u32>,
    /// Transition played when this slide enters the screen.
    pub transition_in: Option<TransitionKind>,
    /// Transition played when this slide leaves the screen.
    pub transition_out: Option<TransitionKind>,
    /// Optional JSON parameters written into the slide configure buffer.
    pub params: Option<JsonValue>,
}

// ── Data paths ───────────────────────────────────────────────────────────────

/// Whether a `.` segment of `p` starts at position `i`.
pub open spec fn dot_segment_at(p: Seq<char>, i: int) -> bool {
    &&& 0 <= i < p.len()
    &&& (i == 0 || p[i - 1] == '/')
    &&& p[i] == '.'
    &&& (i + 1 == p.len() || p[i + 1] == '/')
}

/// Whether a `..` segment of `p` starts at position `i`.
pub open spec fn dot_dot_segment_at(p: Seq<char>, i: int) -> bool {
    &&& 0 <= i
    &&& i + 2 <= p.len()
    &&& (i == 0 || p[i - 1] == '/')
    &&& p[i] == '.'
    &&& p[i + 1] == '.'
    &&& (i + 2 == p.len() || p[i + 2] == '/')
}

/// Whether some `/`-separated segment of `p` is `.` or `..`.
pub open spec fn has_dot_segment(p: Seq<char>) -> bool {
    exists|i: int| dot_segment_at(p, i) || dot_dot_segment_at(p, i)
}

/// What is wrong with a playlist `data_path`, if anything.
pub open spec fn data_path_problem(path: Seq<char>) -> Option<Seq<char>> {
    let t = trimmed(path);
    if t.len() == 0 {
        Some("must be a non-empty string"@)
    } else if t.contains('\\') {
        Some("must use forward slashes"@)
    } else if !starts_with_char(t, '/') && has_dot_segment(t) {
        Some("must not contain . or .. segments"@)
    } else {
        None
    }
}

fn text_has_dot_segment(path: &str) -> (r: bool)
    ensures
        r == has_dot_segment(path@),
{
    let cs = chars_of(path);
    let n = cs.len();
    let mut i: usize = 0;
    while i < n
        invariant
            cs@ == path@,
            n == cs@.len(),
            i <= n,
            forall|k: int|
                0 <= k < i ==> !dot_segment_at(path@, k) && !dot_dot_segment_at(path@, k),
        decreases n - i,
    {
        let starts = i == 0 || cs[i - 1] == '/';
        if starts && cs[i] == '.' && (i + 1 == n || cs[i + 1] == '/') {
            assert(dot_segment_at(path@, i as int));
            return true;
        }
        if starts && i + 1 < n && cs[i] == '.' && cs[i + 1] == '.' && (i + 2 == n || cs[i + 2]
            == '/') {
            assert(dot_dot_segment_at(path@, i as int));
            return true;
        }
        i += 1;
    }
    assert forall|k: int| !(dot_segment_at(path@, k) || dot_dot_segment_at(path@, k)) by {
        if 0 <= k < i {
        }
    }
    false
}

/// Checks a playlist `data_path`: it must be non-blank, use forward slashes,
/// and, unless absolute, contain no `.` or `..` segments.
pub fn validate_data_path(path: &str) -> (r: Result<(), &'static str>)
    ensures
        r is Ok <==> data_path_problem(path@) is None,
        r matches Err(m) ==> data_path_problem(path@) == Some(m@),
{
    let t = trim(path);
    let ts = t.as_str();
    if text_is_empty(ts) {
        return Err("must be a non-empty string");
    }
    if text_contains(ts, '\\') {
        return Err("must use forward slashes");
    }
    if !text_starts_with(ts, '/') && text_has_dot_segment(ts) {
        return Err("must not contain . or .. segments");
    }
    Ok(())
}

/// What is wrong with entry `e` at position `index`, if anything.
pub open spec fn entry_problem(e: PlaylistEntry, index: nat) -> Option<Seq<char>> {
    match e.data_path {
        Some(p) => match data_path_problem(p@) {
            Some(m) => Some("slides["@ + decimal(index) + "].data_path "@ + m),
            None => None,
        },
        None => None,
    }
}

/// The first problem among `slides`, if any.
pub open spec fn playlist_problem(slides: Seq<PlaylistEntry>) -> Option<Seq<char>>
    decreases slides.len(),
{
    if slides.len() == 0 {
        None
    } else {
        match playlist_problem(slides.drop_last()) {
            Some(m) => Some(m),
            None => entry_problem(slides.last(), (slides.len() - 1) as nat),
        }
    }
}

proof fn lemma_playlist_problem_extends(slides: Seq<PlaylistEntry>, n: int)
    requires
        0 <= n <= slides.len(),
        playlist_problem(slides.take(n)) is Some,
    ensures
        playlist_problem(slides) == playlist_problem(slides.take(n)),
    decreases slides.len() - n,
{
    if n < slides.len() {
        assert(slides.drop_last().take(n) == slides.take(n));
        lemma_playlist_problem_extends(slides.drop_last(), n);
    } else {
        assert(slides.take(n) == slides);
    }
}

/// Checks every entry's `data_path`; the first bad one is reported as
/// `slides[<index>].data_path <problem>`.
pub fn validate_playlist(playlist: &PlaylistContent) -> (r: Result<(), String>)
    ensures
        match r {
            Ok(()) => playlist_problem(playlist.slides@) is None,
            Err(m) => playlist_problem(playlist.slides@) == Some(m@),
        },
{
    let slides = &playlist.slides;
    let mut i: usize = 0;
    while i < slides.len()
        invariant
            *slides == playlist.slides,
            i <= slides@.len(),
            playlist_problem(slides@.take(i as int)) is None,
        decreases slides@.len() - i,
    {
        assert(slides@.take(i + 1).drop_last() == slides@.take(i as int));
        assert(slides@.take(i + 1).last() == slides@[i as int]);
        if let Some(path) = &slides[i].data_path {
            if let Err(m) = validate_data_path(path.as_str()) {
                let msg = concat4("slides[", decimal_string(i).as_str(), "].data_path ", m);
                proof {
                    lemma_playlist_problem_extends(slides@, i + 1);
                }
                return Err(msg);
            }
        }
        i += 1;
    }
    assert(slides@.take(slides@.len() as int) == slides@);
    Ok(())
}

// ── Paths ────────────────────────────────────────────────────────────────────

/// `path` under `base`, with one `/` between them.
pub open spec fn joined_path(base: Seq<char>, path: Seq<char>) -> Seq<char> {
    if ends_with_char(base, '/') {
        base + path
    } else {
        base + "/"@ + path
    }
}

/// A data path resolved the way a Unix path is joined onto `base`:
/// absolute paths stay as they are, an empty base adds nothing.
pub open spec fn resolved_data_path(base: Seq<char>, path: Seq<char>) -> Seq<char> {
    if starts_with_char(path, '/') {
        path
    } else if base.len() == 0 || ends_with_char(base, '/') {
        base + path
    } else {
        base + "/"@ + path
    }
}

/// Joins a slide path onto the base path.
pub fn join_slide_path(base_path: &str, path: &str) -> (r: String)
    ensures
        r@ == joined_path(base_path@, path@),
{
    if text_ends_with(base_path, '/') {
        concat2(base_path, path)
    } else {
        concat3(base_path, "/", path)
    }
}

/// Resolves a data path against the base path; absolute paths are kept unchanged.
pub fn resolve_data_path(base_path: &str, path: &str) -> (r: String)
    ensures
        r@ == resolved_data_path(base_path@, path@),
{
    if text_starts_with(path, '/') {
        owned(path)
    } else if text_is_empty(base_path) || text_ends_with(base_path, '/') {
        concat2(base_path, path)
    } else {
        concat3(base_path, "/", path)
    }
}

// ── Schedule ─────────────────────────────────────────────────────────────────

/// The enabled entries of `slides`, in order.
pub open spec fn enabled_entries(slides: Seq<PlaylistEntry>) -> Seq<PlaylistEntry> {
    slides.filter_map(
        |e: PlaylistEntry|
            if entry_enabled(e) {
                Some(e)
            } else {
                None
            },
    )
}

/// The duration an entry gets from itself or the playlist defaults.
pub open spec fn entry_duration(e: PlaylistEntry, defaults: PlaylistDefaults) -> Option<u32> {
    match e.duration_seconds {
        Some(d) => Some(d),
        None => defaults.duration_seconds,
    }
}

/// The transition named by the first present name.
pub open spec fn transition_or_default(own: Option<String>, fallback: Option<String>) -> Option<
    TransitionKind,
> {
    match own {
        Some(t) => Some(transition_named(t@)),
        None => match fallback {
            Some(t) => Some(transition_named(t@)),
            None => None,
        },
    }
}

/// Whether two optional JSON values are both absent or the same value.
pub open spec fn same_params(a: Option<JsonValue>, b: Option<JsonValue>) -> bool {
    match (a, b) {
        (None, None) => true,
        (Some(x), Some(y)) => same_json(x, y),
        _ => false,
    }
}

/// Whether `s` is the scheduled form of entry `e`.
pub open spec fn schedules_entry(
    base: Seq<char>,
    defaults: PlaylistDefaults,
    e: PlaylistEntry,
    s: ScheduledSlide,
) -> bool {
    &&& s.path@ == joined_path(base, e.path@)
    &&& match (e.data_path, s.data_path) {
        (None, None) => true,
        (Some(p), Some(q)) => q@ == resolved_data_path(base, p@),
        _ => false,
    }
    &&& s.duration_seconds == entry_duration(e, defaults)
    &&& s.transition_in == transition_or_default(e.transition_in, defaults.transition_in)
    &&& s.transition_out == transition_or_default(e.transition_out, defaults.transition_out)
    &&& same_params(e.params, s.params)
}

/// The duration in seconds an entry plays for: its own, else the playlist default.
/// `None` leaves the choice to the engine default.
pub fn resolve_duration_seconds(entry: &PlaylistEntry, defaults: &PlaylistDefaults) -> (r: Option<
    u32,
>)
    ensures
        r == entry_duration(*entry, *defaults),
{
    match entry.duration_seconds {
        Some(d) => Some(d),
        None => defaults.duration_seconds,
    }
}

fn resolve_transition_name(own: &Option<String>, fallback: &Option<String>) -> (r: Option<
    TransitionKind,
>)
    ensures
        r == transition_or_default(*own, *fallback),
{
    match own {
        Some(t) => Some(parse_transition_kind(t.as_str())),
        None => match fallback {
            Some(t) => Some(parse_transition_kind(t.as_str())),
            None => None,
        },
    }
}

fn clone_params(p: &Option<JsonValue>) -> (r: Option<JsonValue>)
    ensures
        same_params(*p, r),
{
    match p {
        Some(v) => Some(v.clone()),
        None => None,
    }
}

/// Resolves the enabled entries of a playlist into schedule entries, in order:
/// paths joined onto `base_path`, data paths resolved, durations and
/// transitions taken from the entry or else the playlist defaults.
pub fn resolve_schedule_entries(playlist: &PlaylistContent, base_path: &str) -> (r: Vec<
    ScheduledSlide,
>)
    ensures
        r@.len() == enabled_entries(playlist.slides@).len(),
        forall|k: int|
            0 <= k < r@.len() ==> schedules_entry(
                base_path@,
                playlist.defaults,
                enabled_entries(playlist.slides@)[k],
                #[trigger] r@[k],
            ),
{
    let slides = &playlist.slides;
    let defaults = &playlist.defaults;
    let mut out: Vec<ScheduledSlide> = Vec::new();
    let mut i: usize = 0;
    while i < slides.len()
        invariant
            *slides == playlist.slides,
            *defaults == playlist.defaults,
            i <= slides@.len(),
            out@.len() == enabled_entries(slides@.take(i as int)).len(),
            forall|k: int|
                0 <= k < out@.len() ==> schedules_entry(
                    base_path@,
                    *defaults,
                    enabled_entries(slides@.take(i as int))[k],
                    #[trigger] out@[k],
                ),
        decreases slides@.len() - i,
    {
        let e = &slides[i];
        let ghost before = enabled_entries(slides@.take(i as int));
        assert(slides@.take(i + 1).drop_last() == slides@.take(i as int));
        assert(slides@.take(i + 1).last() == *e);
        if e.is_enabled() {
            let data_path = match &e.data_path {
                Some(p) => Some(resolve_data_path(base_path, p.as_str())),
                None => None,
            };
            let slide = ScheduledSlide {
                path: join_slide_path(base_path, e.path.as_str()),
                data_path,
                duration_seconds: resolve_duration_seconds(e, defaults),
                transition_in: resolve_transition_name(&e.transition_in, &defaults.transition_in),
                transition_out: resolve_transition_name(
                    &e.transition_out,
                    &defaults.transition_out,
                ),
                params: clone_params(&e.params),
            };
            out.push(slide);
            assert(enabled_entries(slides@.take(i + 1)) == before + seq![*e]);
        } else {
            assert(enabled_entries(slides@.take(i + 1)) == before);
        }
        i += 1;
    }
    assert(slides@.take(slides@.len() as int) == slides@);
    out
}

/// The slide paths of a playlist's schedule: enabled entries only, in order,
/// each joined onto `base_path`.
pub fn build_schedule_from_playlist(playlist: &PlaylistContent, base_path: &str) -> (r: Vec<
    String,
>)
    ensures
        r@.len() == enabled_entries(playlist.slides@).len(),
        forall|k: int|
            0 <= k < r@.len() ==> (#[trigger] r@[k])@ == joined_path(
                base_path@,
                enabled_entries(playlist.slides@)[k].path@,
            ),
{
    let resolved = resolve_schedule_entries(playlist, base_path);
    let mut out: Vec<String> = Vec::new();
    let mut i: usize = 0;
    while i < resolved.len()
        invariant
            i <= resolved@.len(),
            resolved@.len() == enabled_entries(playlist.slides@).len(),
            forall|k: int|
                0 <= k < resolved@.len() ==> schedules_entry(
                    base_path@,
                    playlist.defaults,
                    enabled_entries(playlist.slides@)[k],
                    #[trigger] resolved@[k],
                ),
            out@.len() == i,
            forall|k: int| 0 <= k < i ==> (#[trigger] out@[k])@ == resolved@[k].path@,
        decreases resolved@.len() - i,
    {
        out.push(resolved[i].path.clone());
        i += 1;
    }
    proof {
        assert forall|k: int| 0 <= k < out@.len() implies (#[trigger] out@[k])@ == joined_path(
            base_path@,
            enabled_entries(playlist.slides@)[k].path@,
        ) by {
            assert(schedules_entry(
                base_path@,
                playlist.defaults,
                enabled_entries(playlist.slides@)[k],
                resolved@[k],
            ));
        }
    }
    out
}

/// Disabling an entry never adds a slide: the schedule is never longer than the playlist.
pub proof fn lemma_schedule_not_longer(slides: Seq<PlaylistEntry>)
    ensures
        enabled_entries(slides).len() <= slides.len(),
    decreases slides.len(),
{
    if slides.len() > 0 {
        lemma_schedule_not_longer(slides.drop_last());
    }
}

/// An entry whose `enabled` is `Some(false)` never appears in the schedule.
pub proof fn lemma_disabled_entries_skipped(slides: Seq<PlaylistEntry>)
    ensures
        forall|k: int|
            0 <= k < enabled_entries(slides).len() ==> entry_enabled(
                #[trigger] enabled_entries(slides)[k],
            ),
    decreases slides.len(),
{
    if slides.len() > 0 {
        lemma_disabled_entries_skipped(slides.drop_last());
        let before = enabled_entries(slides.drop_last());
        if entry_enabled(slides.last()) {
            assert(enabled_entries(slides) == before + seq![slides.last()]);
        } else {
            assert(enabled_entries(slides) == before);
        }
        assert forall|k: int|
            0 <= k < enabled_entries(slides).len() implies entry_enabled(
            #[trigger] enabled_entries(slides)[k],
        ) by {
            if k < before.len() {
                assert(enabled_entries(slides)[k] == before[k]);
            }
        }
    }
}

/// When every entry is enabled, the schedule keeps all of them in order.
pub proof fn lemma_all_enabled_kept(slides: Seq<PlaylistEntry>)
    requires
        forall|k: int| 0 <= k < slides.len() ==> entry_enabled(#[trigger] slides[k]),
    ensures
        enabled_entries(slides) == slides,
    decreases slides.len(),
{
    if slides.len() > 0 {
        assert forall|k: int| 0 <= k < slides.drop_last().len() implies entry_enabled(
            #[trigger] slides.drop_last()[k],
        ) by {
            assert(slides.drop_last()[k] == slides[k]);
        }
        lemma_all_enabled_kept(slides.drop_last());
        assert(entry_enabled(slides[slides.len() - 1]));
        assert(slides.drop_last() + seq![slides.last()] == slides);
    }
}


/// A scheduled entry's settings come from the entry itself first, then from the playlist
/// defaults: an entry's own duration or transition name wins over the default's.
pub proof fn schedule_entry_precedence(e: PlaylistEntry, defaults: PlaylistDefaults)
    ensures
        e.duration_seconds matches Some(d) ==> entry_duration(e, defaults) == Some(d),
        e.duration_seconds is None ==> entry_duration(e, defaults) == defaults.duration_seconds,
        e.transition_in matches Some(t) ==> transition_or_default(e.transition_in, defaults.transition_in)
            == Some(transition_named(t@)),
        e.transition_in is None ==> (defaults.transition_in matches Some(t) ==> transition_or_default(
            e.transition_in,
            defaults.transition_in,
        ) == Some(transition_named(t@))),
        e.transition_out matches Some(t) ==> transition_or_default(e.transition_out, defaults.transition_out)
            == Some(transition_named(t@)),
        e.transition_out is None ==> (defaults.transition_out matches Some(t) ==> transition_or_default(
            e.transition_out,
            defaults.transition_out,
        ) == Some(transition_named(t@))),
{
}

} // verus!
