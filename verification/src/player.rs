//! The media-player feed: one line of text for one status report.
//!
//! A line has three fields separated by single spaces: the symbol of the
//! playback mode, the elapsed time, and how far into the track the player is.

use vstd::prelude::*;
use vstd::string::*;
use crate::ratio::{lemma_percent_of_part, lemma_percent_text_width, percent, percent_string,
    percent_text};
use crate::text::{center, centered, lemma_decimal_len_positive, lemma_decimal_len_small,
    right_align, right_aligned, zero_pad, zero_padded};

verus! {

/// What the player is doing.
#[derive(Clone, Copy, Debug, PartialEq, Eq, Structural)]
pub enum PlaybackMode {
    Play,
    Pause,
    Stop,
}

/// One status report of the player. Times are whole seconds.
///
/// A track of unknown length is a stream; that is an ordinary report,
/// whether or not the time played is known. A playing or paused player that
/// knows the length of the track but does not say how far it is into it is
/// not: the player is not supposed to send such a report.
#[derive(Clone, Copy, Debug, PartialEq, Eq, Structural)]
pub struct PlayerStatus {
    pub mode: PlaybackMode,
    /// Length of the current track, if the player knows it.
    pub duration: Option<u64>,
    /// Time played of the current track, if the player reports it.
    pub elapsed: Option<u64>,
}

/// The strings that the feed is set up with.
#[derive(Clone, Debug, PartialEq, Eq)]
pub struct PlayerConfig {
    /// Seconds between two polls.
    pub interval: u64,
    pub prefix: String,
    pub postfix: String,
    pub symbol_play: String,
    pub symbol_pause: String,
    pub symbol_stop: String,
    /// Shown in place of the percentage while the player is stopped.
    pub pct_when_stop: String,
    /// Shown in place of the percentage while the player plays a stream.
    pub pct_when_stream: String,
}

/// A `PlayerConfig` with its strings as character sequences.
pub struct PlayerConfigView {
    pub interval: u64,
    pub prefix: Seq<char>,
    pub postfix: Seq<char>,
    pub symbol_play: Seq<char>,
    pub symbol_pause: Seq<char>,
    pub symbol_stop: Seq<char>,
    pub pct_when_stop: Seq<char>,
    pub pct_when_stream: Seq<char>,
}

impl View for PlayerConfig {
    type V = PlayerConfigView;

    open spec fn view(&self) -> PlayerConfigView {
        PlayerConfigView {
            interval: self.interval,
            prefix: self.prefix@,
            postfix: self.postfix@,
            symbol_play: self.symbol_play@,
            symbol_pause: self.symbol_pause@,
            symbol_stop: self.symbol_stop@,
            pct_when_stop: self.pct_when_stop@,
            pct_when_stream: self.pct_when_stream@,
        }
    }
}

/// The kinds of report, told apart by the mode and by which of the two times
/// are known.
#[derive(Clone, Copy, Debug, PartialEq, Eq, Structural)]
pub enum StatusKind {
    /// The player is stopped, whatever times it reports.
    Stopped,
    /// Playing or paused, length unknown, whether or not the time played is
    /// known.
    Streaming,
    /// Playing or paused, both times known.
    Track,
    /// Playing or paused, length known but not the time played.
    LengthOnly,
}

impl StatusKind {
    /// Whether a well-behaved player sends reports of this kind.
    pub open spec fn expected(self) -> bool {
        self is Stopped || self is Streaming || self is Track
    }

    /// Whether a well-behaved player sends reports of this kind.
    pub fn is_expected(&self) -> (b: bool)
        ensures
            b == self.expected(),
    {
        match self {
            StatusKind::Stopped => true,
            StatusKind::Streaming => true,
            StatusKind::Track => true,
            StatusKind::LengthOnly => false,
        }
    }
}

/// Whether `status` is a report of kind `kind`.
pub open spec fn is_kind(status: PlayerStatus, kind: StatusKind) -> bool {
    match kind {
        StatusKind::Stopped => status.mode is Stop,
        StatusKind::Streaming => status.mode !is Stop && status.duration is None,
        StatusKind::Track => status.mode !is Stop && status.duration is Some
            && status.elapsed is Some,
        StatusKind::LengthOnly => status.mode !is Stop && status.duration is Some
            && status.elapsed is None,
    }
}

/// The placeholder shown when there is no time to show.
pub open spec fn no_time() -> Seq<char> {
    seq!['-', '-', ':', '-', '-']
}

/// The mark shown in place of a percentage that cannot be worked out.
pub open spec fn unknown_mark() -> Seq<char> {
    seq!['?', '?', '?']
}

/// A time in seconds as `MM:SS`, or as `HH:MM:SS` from one hour on. Each
/// part has at least two digits; hours beyond 99 are written out in full.
pub open spec fn clock(secs: nat) -> Seq<char> {
    let hours = secs / 3600;
    let minutes = (secs % 3600) / 60;
    let seconds = secs % 60;
    if hours == 0 {
        zero_padded(minutes, 2) + seq![':'] + zero_padded(seconds, 2)
    } else {
        zero_padded(hours, 2) + seq![':'] + zero_padded(minutes, 2) + seq![':'] + zero_padded(
            seconds,
            2,
        )
    }
}

/// The symbol that stands for a playback mode.
pub open spec fn symbol(mode: PlaybackMode, cfg: PlayerConfigView) -> Seq<char> {
    match mode {
        PlaybackMode::Play => cfg.symbol_play,
        PlaybackMode::Pause => cfg.symbol_pause,
        PlaybackMode::Stop => cfg.symbol_stop,
    }
}

/// The time field before it is aligned: the time played, or the placeholder
/// when the player is stopped or does not report it.
pub open spec fn time_field(status: PlayerStatus) -> Seq<char> {
    match (status.mode, status.elapsed) {
        (PlaybackMode::Stop, _) => no_time(),
        (_, None) => no_time(),
        (_, Some(e)) => clock(e as nat),
    }
}

/// The percentage field before it is aligned: the stop placeholder for a
/// stopped player; otherwise the stream placeholder where the length is
/// unknown, the percentage played where both times are known, and the mark
/// where the length is known but not the time played.
pub open spec fn percentage_field(status: PlayerStatus, cfg: PlayerConfigView) -> Seq<char> {
    match (status.mode, status.duration, status.elapsed) {
        (PlaybackMode::Stop, _, _) => cfg.pct_when_stop,
        (_, None, _) => cfg.pct_when_stream,
        (_, Some(total), Some(played)) => percent_text(played as nat, total as nat),
        (_, Some(_), None) => unknown_mark(),
    }
}

/// The three fields of a report: symbol, time right-aligned in eight
/// characters, percentage centred in four, with a space between neighbours.
pub open spec fn status_text(status: PlayerStatus, cfg: PlayerConfigView) -> Seq<char> {
    symbol(status.mode, cfg) + seq![' '] + right_aligned(time_field(status), 8) + seq![' ']
        + centered(percentage_field(status, cfg), 4)
}

/// The line that is emitted for a report: the three fields between the
/// configured prefix and postfix.
pub open spec fn status_line(status: PlayerStatus, cfg: PlayerConfigView) -> Seq<char> {
    cfg.prefix + status_text(status, cfg) + cfg.postfix
}

impl PlayerStatus {
    /// The kind of this report.
    pub open spec fn kind_of(self) -> StatusKind {
        match (self.mode, self.duration, self.elapsed) {
            (PlaybackMode::Stop, _, _) => StatusKind::Stopped,
            (_, None, _) => StatusKind::Streaming,
            (_, Some(_), Some(_)) => StatusKind::Track,
            (_, Some(_), None) => StatusKind::LengthOnly,
        }
    }

    /// The kind of this report.
    pub fn kind(&self) -> (k: StatusKind)
        ensures
            k == self.kind_of(),
            is_kind(*self, k),
    {
        match (self.mode, self.duration, self.elapsed) {
            (PlaybackMode::Stop, _, _) => StatusKind::Stopped,
            (_, None, _) => StatusKind::Streaming,
            (_, Some(_), Some(_)) => StatusKind::Track,
            (_, Some(_), None) => StatusKind::LengthOnly,
        }
    }
}

/// Every report is of exactly one kind.
pub proof fn lemma_kind_is_unique(status: PlayerStatus)
    ensures
        is_kind(status, status.kind_of()),
        forall|k: StatusKind| is_kind(status, k) ==> k == status.kind_of(),
{
}

/// The kind of a report fixes the shape of its text. In particular a stopped
/// player always shows the stop symbol, no time and the stop placeholder,
/// whatever times it reports; a stream always shows the stream placeholder,
/// with the time played if that is known and without it if not; and a report
/// that should not occur shows no time and the mark for an unknown
/// percentage.
pub proof fn lemma_text_by_kind(status: PlayerStatus, cfg: PlayerConfigView)
    ensures
        match status.kind_of() {
            StatusKind::Stopped => status_text(status, cfg) == cfg.symbol_stop + seq![' ']
                + seq![' ', ' ', ' ', '-', '-', ':', '-', '-'] + seq![' '] + centered(
                cfg.pct_when_stop,
                4,
            ),
            StatusKind::Streaming => status_text(status, cfg) == symbol(status.mode, cfg)
                + seq![' '] + (match status.elapsed {
                Some(played) => right_aligned(clock(played as nat), 8),
                None => seq![' ', ' ', ' ', '-', '-', ':', '-', '-'],
            }) + seq![' '] + centered(cfg.pct_when_stream, 4),
            StatusKind::Track => status_text(status, cfg) == symbol(status.mode, cfg) + seq![' ']
                + right_aligned(clock(status.elapsed->0 as nat), 8) + seq![' '] + centered(
                percent_text(status.elapsed->0 as nat, status.duration->0 as nat),
                4,
            ),
            StatusKind::LengthOnly => status_text(status, cfg) == symbol(status.mode, cfg)
                + seq![' '] + seq![' ', ' ', ' ', '-', '-', ':', '-', '-'] + seq![' ']
                + seq!['?', '?', '?', ' '],
        },
        status.mode !is Stop ==> symbol(status.mode, cfg) == if status.mode is Play {
            cfg.symbol_play
        } else {
            cfg.symbol_pause
        },
{
    assert(right_aligned(no_time(), 8) =~= seq![' ', ' ', ' ', '-', '-', ':', '-', '-']);
    assert(centered(unknown_mark(), 4) =~= seq!['?', '?', '?', ' ']);
}

/// While the time played does not exceed the length of the track, the
/// percentage takes exactly the four characters of its field, and shows at
/// most a hundred.
pub proof fn lemma_track_percentage(status: PlayerStatus, cfg: PlayerConfigView)
    requires
        status.kind_of() is Track,
        status.elapsed->0 <= status.duration->0,
    ensures
        percent(status.elapsed->0 as nat, status.duration->0 as nat) <= 100,
        centered(percentage_field(status, cfg), 4) == percent_text(
            status.elapsed->0 as nat,
            status.duration->0 as nat,
        ),
        centered(percentage_field(status, cfg), 4).len() == 4,
{
    lemma_percent_of_part(status.elapsed->0 as nat, status.duration->0 as nat);
    lemma_percent_text_width(status.elapsed->0 as nat, status.duration->0 as nat);
}

/// The time field is never empty; short of a hundred hours it is five
/// characters without hours and eight with them.
pub proof fn lemma_clock_len(secs: nat)
    ensures
        secs < 3600 ==> clock(secs).len() == 5,
        3600 <= secs < 360000 ==> clock(secs).len() == 8,
        clock(secs).len() >= 5,
{
    lemma_zero_padded_len(secs / 3600);
    lemma_zero_padded_len((secs % 3600) / 60);
    lemma_zero_padded_len(secs % 60);
}

/// A number padded to two digits has two characters if it is below a
/// hundred, and never fewer.
proof fn lemma_zero_padded_len(n: nat)
    ensures
        n < 100 ==> zero_padded(n, 2).len() == 2,
        zero_padded(n, 2).len() >= 2,
{
    lemma_decimal_len_positive(n);
    if n < 100 {
        lemma_decimal_len_small(n);
    }
}

/// Renders a time in seconds as `MM:SS` or `HH:MM:SS`.
pub fn clock_string(secs: u64) -> (out: String)
    ensures
        out@ == clock(secs as nat),
{
    let hours: u64 = secs / 3600;
    let minutes: u64 = (secs % 3600) / 60;
    let seconds: u64 = secs % 60;
    proof {
        reveal_strlit(":");
    }
    let mut out = String::new();
    if hours != 0 {
        out.append(zero_pad(hours, 2).as_str());
        out.append(":");
    }
    out.append(zero_pad(minutes, 2).as_str());
    out.append(":");
    out.append(zero_pad(seconds, 2).as_str());
    assert(out@ =~= clock(secs as nat));
    out
}

/// Renders the three fields of a report.
pub fn status_to_string(status: PlayerStatus, cfg: &PlayerConfig) -> (out: String)
    ensures
        out@ == status_text(status, cfg@),
{
    proof {
        reveal_strlit(" ");
        reveal_strlit("--:--");
        reveal_strlit("???");
    }
    let mut out = String::new();
    match status.mode {
        PlaybackMode::Play => out.append(cfg.symbol_play.as_str()),
        PlaybackMode::Pause => out.append(cfg.symbol_pause.as_str()),
        PlaybackMode::Stop => out.append(cfg.symbol_stop.as_str()),
    }
    let time = match (status.mode, status.elapsed) {
        (PlaybackMode::Stop, _) => String::from_str("--:--"),
        (_, None) => String::from_str("--:--"),
        (_, Some(e)) => clock_string(e),
    };
    assert(time@ =~= time_field(status));
    let percentage = match (status.mode, status.duration, status.elapsed) {
        (PlaybackMode::Stop, _, _) => cfg.pct_when_stop.clone(),
        (_, None, _) => cfg.pct_when_stream.clone(),
        (_, Some(total), Some(played)) => percent_string(played, total),
        (_, Some(_), None) => String::from_str("???"),
    };
    assert(percentage@ =~= percentage_field(status, cfg@));
    out.append(" ");
    out.append(right_align(time.as_str(), 8).as_str());
    out.append(" ");
    out.append(center(percentage.as_str(), 4).as_str());
    assert(out@ =~= status_text(status, cfg@));
    out
}

/// Renders the line that is emitted for a report.
pub fn status_line_string(status: PlayerStatus, cfg: &PlayerConfig) -> (out: String)
    ensures
        out@ == status_line(status, cfg@),
{
    let mut out = cfg.prefix.clone();
    out.append(status_to_string(status, cfg).as_str());
    out.append(cfg.postfix.as_str());
    out
}

} // verus!
