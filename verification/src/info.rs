//! Information slide state machine.
//!
//! The kernel tracks when an information slide should be shown instead of the
//! playlist (missing, invalid or empty playlist, or an alert raised by the
//! host) and decides when normal operation can resume. The host renders it.

use vstd::prelude::*;

use crate::text::{concat2, concat3, has_prefix, owned, strip_prefix};

verus! {

/// The reason the information slide is being shown.
#[derive(Debug, Clone, PartialEq, Eq)]
pub enum InfoReason {
    /// No playlist.json found in the slides directory.
    MissingPlaylist {
        /// Path to the slides directory (shown so the user knows where to put playlist.json).
        slides_dir: String,
        /// Management console URL the user should visit.
        management_url: String,
    },
    /// Playlist.json exists but is invalid / unparseable.
    InvalidPlaylist {
        /// The parse error message.
        error: String,
        /// Management console URL.
        management_url: String,
    },
    /// Playlist exists but contains zero enabled slides.
    EmptyPlaylist {
        /// Management console URL.
        management_url: String,
    },
    /// A general alert message, set by the host for situational errors.
    Alert {
        /// Title line shown prominently.
        title: String,
        /// Supporting detail lines.
        lines: Vec<String>,
    },
}

/// The management console URL of a non-alert reason.
pub open spec fn management_url_of(r: InfoReason) -> Seq<char> {
    match r {
        InfoReason::MissingPlaylist { management_url, .. } => management_url@,
        InfoReason::InvalidPlaylist { management_url, .. } => management_url@,
        InfoReason::EmptyPlaylist { management_url } => management_url@,
        InfoReason::Alert { .. } => Seq::empty(),
    }
}

/// The primary message line for a reason.
pub open spec fn primary_text(r: InfoReason) -> Seq<char> {
    match r {
        InfoReason::MissingPlaylist { slides_dir, .. } => "No playlist.json found in '"@
            + slides_dir@ + "'"@,
        InfoReason::InvalidPlaylist { error, .. } => "Invalid playlist.json: "@ + error@,
        InfoReason::EmptyPlaylist { .. } => "No enabled slides in playlist"@,
        InfoReason::Alert { title, .. } => title@,
    }
}

/// The characters of each string in `v`.
pub open spec fn line_texts(v: Seq<String>) -> Seq<Seq<char>> {
    v.map_values(|s: String| s@)
}

/// The detail lines for a reason.
pub open spec fn detail_texts(r: InfoReason) -> Seq<Seq<char>> {
    match r {
        InfoReason::Alert { lines, .. } => line_texts(lines@),
        _ => seq!["Open management console: "@ + management_url_of(r)],
    }
}

impl InfoReason {
    /// Returns the primary message line shown to the user.
    pub fn primary_message(&self) -> (m: String)
        ensures
            m@ == primary_text(*self),
    {
        match self {
            InfoReason::MissingPlaylist { slides_dir, .. } => {
                concat3("No playlist.json found in '", slides_dir.as_str(), "'")
            },
            InfoReason::InvalidPlaylist { error, .. } => {
                concat2("Invalid playlist.json: ", error.as_str())
            },
            InfoReason::EmptyPlaylist { .. } => owned("No enabled slides in playlist"),
            InfoReason::Alert { title, .. } => title.clone(),
        }
    }

    /// Returns the secondary detail lines: the management console link, or an alert's lines.
    pub fn detail_lines(&self) -> (v: Vec<String>)
        ensures
            line_texts(v@) == detail_texts(*self),
    {
        match self {
            InfoReason::MissingPlaylist { management_url, .. }
            | InfoReason::InvalidPlaylist { management_url, .. }
            | InfoReason::EmptyPlaylist { management_url } => {
                let mut v: Vec<String> = Vec::new();
                v.push(concat2("Open management console: ", management_url.as_str()));
                assert(line_texts(v@) =~= detail_texts(*self));
                v
            },
            InfoReason::Alert { lines, .. } => {
                let mut v: Vec<String> = Vec::new();
                let mut i: usize = 0;
                while i < lines.len()
                    invariant
                        i <= lines@.len(),
                        v@.len() == i,
                        forall|k: int| 0 <= k < i ==> (#[trigger] v@[k])@ == lines@[k]@,
                    decreases lines@.len() - i,
                {
                    v.push(lines[i].clone());
                    i += 1;
                }
                assert(line_texts(v@) =~= line_texts(lines@));
                v
            },
        }
    }
}

/// What the host found when it looked for the playlist during recovery polling.
#[derive(Debug, Clone, PartialEq, Eq)]
pub enum PlaylistProbe {
    /// `playlist.json` does not exist.
    Missing,
    /// The file exists but could not be read.
    Unreadable,
    /// The file parsed; `has_enabled` tells whether any entry is enabled.
    Parsed {
        /// Whether at least one entry is enabled.
        has_enabled: bool,
    },
    /// The file could not be parsed; `error` is the parser's message.
    Invalid {
        /// The parse error message.
        error: String,
    },
}

/// Prefix that playlist parse errors carry and the info slide leaves out.
pub open spec fn json_error_prefix() -> Seq<char> {
    "invalid playlist JSON: "@
}

/// A parse error as the info slide shows it: without the JSON-error prefix.
pub open spec fn shown_error(error: Seq<char>) -> Seq<char> {
    if has_prefix(error, json_error_prefix()) {
        error.skip(json_error_prefix().len() as int)
    } else {
        error
    }
}

/// What applying `probe` does to a recoverable `reason`: whether the slide is
/// dismissed, and the reason left afterwards.
pub open spec fn recovery_effect(
    reason: InfoReason,
    probe: PlaylistProbe,
    recovered: bool,
    after: Option<InfoReason>,
) -> bool {
    match probe {
        PlaylistProbe::Missing | PlaylistProbe::Unreadable => !recovered && after == Some(reason),
        PlaylistProbe::Parsed { has_enabled } => if has_enabled {
            recovered && after is None
        } else if reason is EmptyPlaylist {
            !recovered && after == Some(reason)
        } else {
            !recovered && (after matches Some(InfoReason::EmptyPlaylist { management_url })
                && management_url@ == management_url_of(reason))
        },
        PlaylistProbe::Invalid { error } => if reason is InvalidPlaylist {
            !recovered && after == Some(reason)
        } else {
            !recovered && (after matches Some(
                InfoReason::InvalidPlaylist { error: shown, management_url },
            ) && shown@ == shown_error(error@) && management_url@ == management_url_of(reason))
        },
    }
}

/// State machine for the information slide.
#[derive(Debug, Clone)]
pub struct InfoState {
    /// Why the info slide is currently shown. `None` means normal operation.
    pub reason: Option<InfoReason>,
}

impl Default for InfoState {
    fn default() -> (s: Self)
        ensures
            s.reason is None,
    {
        InfoState { reason: None }
    }
}

impl InfoState {
    /// Create a new inactive info state.
    pub fn new() -> (s: Self)
        ensures
            s.reason is None,
    {
        InfoState { reason: None }
    }

    /// Show the info slide for `reason`.
    pub fn show(&mut self, reason: InfoReason)
        ensures
            final(self).reason == Some(reason),
    {
        self.reason = Some(reason);
    }

    /// Clear the info state: normal playlist operation resumes.
    pub fn clear(&mut self)
        ensures
            final(self).reason is None,
    {
        self.reason = None;
    }

    /// Returns `true` if the info slide should be displayed.
    pub fn is_active(&self) -> (r: bool)
        ensures
            r == (self.reason is Some),
    {
        self.reason.is_some()
    }

    /// Whether recovery polling should look at the playlist at all: only a
    /// missing, invalid or empty playlist can recover; alerts do not.
    pub fn awaits_recovery(&self) -> (r: bool)
        ensures
            r == (self.reason matches Some(reason) && !(reason is Alert)),
    {
        match &self.reason {
            Some(InfoReason::Alert { .. }) => false,
            Some(_) => true,
            None => false,
        }
    }

    /// Takes what the host found at the playlist path and returns `true` when
    /// the info slide can be dismissed (the playlist now has an enabled slide),
    /// clearing the state. A missing or unreadable file changes nothing. A playlist
    /// with no enabled slide turns the reason into an empty playlist (one that is
    /// already that stays as it is). A parse error turns any other reason into an
    /// invalid playlist with that error, its `invalid playlist JSON: ` prefix
    /// dropped; an invalid-playlist reason keeps the error it already has.
    pub fn apply_recovery_probe(&mut self, probe: PlaylistProbe) -> (recovered: bool)
        ensures
            !(old(self).reason matches Some(reason) && !(reason is Alert)) ==> !recovered
                && *final(self) == *old(self),
            old(self).reason matches Some(reason) ==> (!(reason is Alert) ==> recovery_effect(
                reason,
                probe,
                recovered,
                final(self).reason,
            )),
    {
        let url = match &self.reason {
            Some(InfoReason::MissingPlaylist { management_url, .. }) => management_url.clone(),
            Some(InfoReason::InvalidPlaylist { management_url, .. }) => management_url.clone(),
            Some(InfoReason::EmptyPlaylist { management_url }) => management_url.clone(),
            _ => {
                return false;
            },
        };
        match probe {
            PlaylistProbe::Missing | PlaylistProbe::Unreadable => false,
            PlaylistProbe::Parsed { has_enabled } => {
                if has_enabled {
                    self.clear();
                    return true;
                }
                if !matches!(&self.reason, Some(InfoReason::EmptyPlaylist { .. })) {
                    self.reason = Some(InfoReason::EmptyPlaylist { management_url: url });
                }
                false
            },
            PlaylistProbe::Invalid { error } => {
                if !matches!(&self.reason, Some(InfoReason::InvalidPlaylist { .. })) {
                    let shown = match strip_prefix(error.as_str(), "invalid playlist JSON: ") {
                        Some(rest) => rest,
                        None => error,
                    };
                    self.reason = Some(
                        InfoReason::InvalidPlaylist { error: shown, management_url: url },
                    );
                }
                false
            },
        }
    }
}

/// Build an [`InfoReason`] for a missing playlist.
pub fn missing_playlist_info(slides_dir: &str, management_url: &str) -> (r: InfoReason)
    ensures
        r matches InfoReason::MissingPlaylist { slides_dir: d, management_url: u } && d@
            == slides_dir@ && u@ == management_url@,
{
    InfoReason::MissingPlaylist {
        slides_dir: owned(slides_dir),
        management_url: owned(management_url),
    }
}

/// Build an [`InfoReason`] for an invalid playlist.
pub fn invalid_playlist_info(error: &str, management_url: &str) -> (r: InfoReason)
    ensures
        r matches InfoReason::InvalidPlaylist { error: e, management_url: u } && e@ == error@
            && u@ == management_url@,
{
    InfoReason::InvalidPlaylist { error: owned(error), management_url: owned(management_url) }
}

/// Build an [`InfoReason`] for an empty playlist.
pub fn empty_playlist_info(management_url: &str) -> (r: InfoReason)
    ensures
        r matches InfoReason::EmptyPlaylist { management_url: u } && u@ == management_url@,
{
    InfoReason::EmptyPlaylist { management_url: owned(management_url) }
}

} // verus!
