//! What the player is told, what it reports, and how its status changes.

use vstd::prelude::*;

use crate::time::Duration;

verus! {

/// A song queued up to be played. `artist_idx`/`song_idx` identify the song's position within the
/// library so that "next"/"previous" can be computed without the player needing to know about the
/// library itself.
#[derive(Debug, Clone)]
pub struct TrackRequest {
    pub path: String,
    pub artist: String,
    pub title: String,
    pub duration: Duration,
    pub artist_idx: usize,
    pub song_idx: usize,
}

/// The song that is loaded.
#[derive(Debug, Clone)]
pub struct NowPlaying {
    pub artist: String,
    pub title: String,
    pub duration: Duration,
    pub artist_idx: usize,
    pub song_idx: usize,
}

/// What a track request holds.
pub struct TrackView {
    pub path: Seq<char>,
    pub artist: Seq<char>,
    pub title: Seq<char>,
    pub duration: Duration,
    pub artist_idx: usize,
    pub song_idx: usize,
}

/// What is known of the loaded song.
pub struct NowPlayingView {
    pub artist: Seq<char>,
    pub title: Seq<char>,
    pub duration: Duration,
    pub artist_idx: usize,
    pub song_idx: usize,
}

impl View for TrackRequest {
    type V = TrackView;

    open spec fn view(&self) -> TrackView {
        TrackView {
            path: self.path@,
            artist: self.artist@,
            title: self.title@,
            duration: self.duration,
            artist_idx: self.artist_idx,
            song_idx: self.song_idx,
        }
    }
}

impl View for NowPlaying {
    type V = NowPlayingView;

    open spec fn view(&self) -> NowPlayingView {
        NowPlayingView {
            artist: self.artist@,
            title: self.title@,
            duration: self.duration,
            artist_idx: self.artist_idx,
            song_idx: self.song_idx,
        }
    }
}

/// The loaded song, if any.
pub open spec fn opt_now(now: Option<NowPlaying>) -> Option<NowPlayingView> {
    match now {
        Some(n) => Some(n@),
        None => None,
    }
}

/// What the player is told to do.
#[derive(Debug)]
pub enum PlayerCommand {
    Play(TrackRequest),
    TogglePause,
    Restart,
    Stop,
    /// Adjusts the volume by so many hundredths of full volume, clamped to the range from silence
    /// to full volume.
    AdjustVolume(i32),
    Shutdown,
}

/// What a command holds.
pub enum CommandView {
    Play(TrackView),
    TogglePause,
    Restart,
    Stop,
    AdjustVolume(i32),
    Shutdown,
}

impl View for PlayerCommand {
    type V = CommandView;

    open spec fn view(&self) -> CommandView {
        match *self {
            PlayerCommand::Play(req) => CommandView::Play(req@),
            PlayerCommand::TogglePause => CommandView::TogglePause,
            PlayerCommand::Restart => CommandView::Restart,
            PlayerCommand::Stop => CommandView::Stop,
            PlayerCommand::AdjustVolume(delta) => CommandView::AdjustVolume(delta),
            PlayerCommand::Shutdown => CommandView::Shutdown,
        }
    }
}

/// Full volume, as the bits of a single-precision 1.0.
pub const FULL_VOLUME: u32 = 0x3f80_0000;

/// What the player reports.
#[derive(Debug)]
pub struct PlayerStatus {
    pub current: Option<NowPlaying>,
    pub elapsed: Duration,
    pub is_paused: bool,
    /// The bits of the sound device's single-precision volume, which is only carried through.
    pub volume: u32,
    pub error: Option<String>,
    /// Set when the current track ran to completion on its own (as opposed to being replaced or
    /// explicitly stopped), so that the queue can advance.
    pub just_finished: bool,
}

/// What a status holds.
#[verifier::ext_equal]
pub struct StatusView {
    pub current: Option<NowPlayingView>,
    pub elapsed: Duration,
    pub is_paused: bool,
    pub volume: u32,
    pub error: Option<Seq<char>>,
    pub just_finished: bool,
}

impl View for PlayerStatus {
    type V = StatusView;

    open spec fn view(&self) -> StatusView {
        StatusView {
            current: opt_now(self.current),
            elapsed: self.elapsed,
            is_paused: self.is_paused,
            volume: self.volume,
            error: crate::tags::opt_text(self.error),
            just_finished: self.just_finished,
        }
    }
}

/// No time at all.
pub open spec fn no_time() -> Duration {
    Duration { secs: 0, nanos: 0 }
}

/// The status before anything was played.
pub open spec fn initial_status() -> StatusView {
    StatusView {
        current: None,
        elapsed: no_time(),
        is_paused: false,
        volume: FULL_VOLUME,
        error: None,
        just_finished: false,
    }
}

impl Default for PlayerStatus {
    /// Nothing is playing, at full volume, so that nobody is shown 0% before the sound device is
    /// asked for the first time.
    fn default() -> (r: Self)
        ensures
            r@ == initial_status(),
    {
        PlayerStatus {
            current: None,
            elapsed: Duration::zero(),
            is_paused: false,
            volume: FULL_VOLUME,
            error: None,
            just_finished: false,
        }
    }
}

/// What came of an attempt to open a track.
#[derive(Debug)]
pub enum Opened {
    /// There is no sound device.
    NoDevice,
    /// The track is playing.
    Playing,
    /// The track could not be opened or decoded.
    Failed(String),
}

/// The status after an attempt to play a track.
pub open spec fn played(s: StatusView, req: TrackView, opened: Opened) -> StatusView {
    match opened {
        Opened::NoDevice => StatusView {
            error: Some("no audio output device available"@),
            ..s
        },
        Opened::Playing => StatusView {
            current: Some(
                NowPlayingView {
                    artist: req.artist,
                    title: req.title,
                    duration: req.duration,
                    artist_idx: req.artist_idx,
                    song_idx: req.song_idx,
                },
            ),
            elapsed: no_time(),
            is_paused: false,
            error: None,
            ..s
        },
        Opened::Failed(text) => StatusView { error: Some(req.path + ": "@ + text@), ..s },
    }
}

/// The status once nothing is loaded.
pub open spec fn stopped(s: StatusView) -> StatusView {
    StatusView { current: None, elapsed: no_time(), is_paused: false, ..s }
}

/// What the sound device says of itself.
#[derive(Debug, Clone, Copy)]
pub struct DeviceReport {
    pub volume: u32,
    pub position: Duration,
    pub is_paused: bool,
    /// Nothing is left to play.
    pub is_empty: bool,
}

/// The status after asking the sound device: where a track is loaded, how far it has come, or that
/// it has just ended.
pub open spec fn refreshed(s: StatusView, report: DeviceReport) -> StatusView {
    if s.current is None {
        StatusView { volume: report.volume, ..s }
    } else if report.is_empty {
        StatusView { volume: report.volume, just_finished: true, ..stopped(s) }
    } else {
        StatusView {
            volume: report.volume,
            elapsed: report.position,
            is_paused: report.is_paused,
            ..s
        }
    }
}

/// What to do with the sound device to toggle between playing and pausing.
#[derive(Debug, Clone, Copy, PartialEq, Eq, Structural)]
pub enum PauseAction {
    Nothing,
    Resume,
    Pause,
}

impl PlayerStatus {
    /// Records that the sound device can't be opened.
    pub fn device_unavailable(&mut self, text: &str)
        ensures
            final(self)@ == (StatusView {
                error: Some("audio output unavailable: "@ + text@),
                ..old(self)@
            }),
    {
        self.error = Some("audio output unavailable: ".to_owned().concat(text));
    }

    /// Records what came of an attempt to play a track. On success the track replaces the one that
    /// was loaded; on failure what was loaded stays.
    pub fn handle_play(&mut self, req: TrackRequest, opened: Opened)
        ensures
            final(self)@ == played(old(self)@, req@, opened),
    {
        match opened {
            Opened::NoDevice => {
                self.error = Some("no audio output device available".to_owned());
            },
            Opened::Playing => {
                self.current = Some(
                    NowPlaying {
                        artist: req.artist,
                        title: req.title,
                        duration: req.duration,
                        artist_idx: req.artist_idx,
                        song_idx: req.song_idx,
                    },
                );
                self.elapsed = Duration::zero();
                self.is_paused = false;
                self.error = None;
            },
            Opened::Failed(text) => {
                self.error = Some(req.path.concat(": ").concat(text.as_str()));
            },
        }
    }

    /// Decides how to toggle between playing and pausing: not at all without a track.
    pub fn handle_toggle_pause(&self, device_paused: bool) -> (r: PauseAction)
        ensures
            r == (if self@.current is None {
                PauseAction::Nothing
            } else if device_paused {
                PauseAction::Resume
            } else {
                PauseAction::Pause
            }),
    {
        if self.current.is_none() {
            PauseAction::Nothing
        } else if device_paused {
            PauseAction::Resume
        } else {
            PauseAction::Pause
        }
    }

    /// Records whether the sound device is paused after toggling.
    pub fn pause_toggled(&mut self, device_paused: bool)
        ensures
            final(self)@ == (StatusView { is_paused: device_paused, ..old(self)@ }),
    {
        self.is_paused = device_paused;
    }

    /// Decides whether there is a track to restart.
    pub fn handle_restart(&self) -> (r: bool)
        ensures
            r == (self@.current is Some),
    {
        self.current.is_some()
    }

    /// Records what came of seeking to the start of the track.
    pub fn restarted(&mut self, sought: Result<(), String>)
        ensures
            final(self)@ == (match sought {
                Ok(_) => StatusView { elapsed: no_time(), ..old(self)@ },
                Err(text) => StatusView { error: Some(text@), ..old(self)@ },
            }),
    {
        match sought {
            Ok(_) => {
                self.elapsed = Duration::zero();
            },
            Err(text) => {
                self.error = Some(text);
            },
        }
    }

    /// Records that nothing is loaded any more.
    pub fn handle_stop(&mut self)
        ensures
            final(self)@ == stopped(old(self)@),
    {
        self.current = None;
        self.elapsed = Duration::zero();
        self.is_paused = false;
    }

    /// Takes over what the sound device says of itself, and notices when a track has ended.
    pub fn refresh_status(&mut self, report: DeviceReport)
        ensures
            final(self)@ == refreshed(old(self)@, report),
    {
        self.volume = report.volume;
        if self.current.is_some() {
            self.elapsed = report.position;
            self.is_paused = report.is_paused;
            if report.is_empty {
                self.current = None;
                self.elapsed = Duration::zero();
                self.is_paused = false;
                self.just_finished = true;
            }
        }
    }

    /// Takes out the pending error and whether a track has ended since the last time.
    pub fn take_events(&mut self) -> (r: (Option<String>, bool))
        ensures
            crate::tags::opt_text(r.0) == old(self)@.error,
            r.1 == old(self)@.just_finished,
            final(self)@ == (StatusView { error: None, just_finished: false, ..old(self)@ }),
    {
        let error = self.error.take();
        let finished = self.just_finished;
        self.just_finished = false;
        (error, finished)
    }
}

/// What the player's thread woke up for.
#[derive(Debug)]
pub enum WakeUp {
    Command(PlayerCommand),
    Timeout,
    Disconnected,
}

/// What the player's thread does on waking up.
#[derive(Debug)]
pub enum Operation {
    Play(TrackRequest),
    TogglePause,
    Restart,
    Stop,
    AdjustVolume(i32),
    Nothing,
}

/// What an operation holds.
pub enum OperationView {
    Play(TrackView),
    TogglePause,
    Restart,
    Stop,
    AdjustVolume(i32),
    Nothing,
}

impl View for Operation {
    type V = OperationView;

    open spec fn view(&self) -> OperationView {
        match *self {
            Operation::Play(req) => OperationView::Play(req@),
            Operation::TogglePause => OperationView::TogglePause,
            Operation::Restart => OperationView::Restart,
            Operation::Stop => OperationView::Stop,
            Operation::AdjustVolume(delta) => OperationView::AdjustVolume(delta),
            Operation::Nothing => OperationView::Nothing,
        }
    }
}

/// What to do on waking up, and whether to go on: a shutdown stops playback and ends the thread,
/// a lost connection ends it at once, and a timeout only leads to a refresh.
pub open spec fn operation_of(wake_up: WakeUp) -> (OperationView, bool) {
    match wake_up {
        WakeUp::Command(command) => match command@ {
            CommandView::Play(req) => (OperationView::Play(req), true),
            CommandView::TogglePause => (OperationView::TogglePause, true),
            CommandView::Restart => (OperationView::Restart, true),
            CommandView::Stop => (OperationView::Stop, true),
            CommandView::AdjustVolume(delta) => (OperationView::AdjustVolume(delta), true),
            CommandView::Shutdown => (OperationView::Stop, false),
        },
        WakeUp::Timeout => (OperationView::Nothing, true),
        WakeUp::Disconnected => (OperationView::Nothing, false),
    }
}

/// Decides what to do on waking up. The second value says whether the thread refreshes the status
/// and goes on.
pub fn plan(wake_up: WakeUp) -> (r: (Operation, bool))
    ensures
        (r.0@, r.1) == operation_of(wake_up),
{
    match wake_up {
        WakeUp::Command(command) => match command {
            PlayerCommand::Play(req) => (Operation::Play(req), true),
            PlayerCommand::TogglePause => (Operation::TogglePause, true),
            PlayerCommand::Restart => (Operation::Restart, true),
            PlayerCommand::Stop => (Operation::Stop, true),
            PlayerCommand::AdjustVolume(delta) => (Operation::AdjustVolume(delta), true),
            PlayerCommand::Shutdown => (Operation::Stop, false),
        },
        WakeUp::Timeout => (Operation::Nothing, true),
        WakeUp::Disconnected => (Operation::Nothing, false),
    }
}

/// A track that was stopped does not count as finished, whatever the sound device says next.
pub proof fn stopping_is_not_finishing(s: StatusView, report: DeviceReport)
    ensures
        refreshed(stopped(s), report).just_finished == s.just_finished,
        refreshed(stopped(s), report).current is None,
{
}

/// A track that runs out is reported as finished once: it is no longer loaded, and after the
/// report was taken a further refresh does not report it again.
pub proof fn finishing_is_reported_once(s: StatusView, report: DeviceReport, later: DeviceReport)
    requires
        s.current is Some,
        report.is_empty,
    ensures
        refreshed(s, report).just_finished,
        refreshed(s, report).current is None,
        ({
            let taken = StatusView { just_finished: false, error: None, ..refreshed(s, report) };
            !refreshed(taken, later).just_finished
        }),
{
}

/// A track that can't be opened leaves what was loaded as it is.
pub proof fn failed_play_keeps_current(s: StatusView, req: TrackView, opened: Opened)
    requires
        !(opened is Playing),
    ensures
        played(s, req, opened) == (StatusView { error: played(s, req, opened).error, ..s }),
        played(s, req, opened).error is Some,
{
}

/// Before anything was played nothing is loaded, at full volume, without an error.
pub proof fn players_start_idle()
    ensures
        initial_status().current is None,
        initial_status().elapsed.secs == 0,
        initial_status().elapsed.nanos == 0,
        !initial_status().is_paused,
        initial_status().volume == 0x3f80_0000,
        initial_status().error is None,
        !initial_status().just_finished,
{
}

/// A track that starts is the one that is loaded, with the artist, title, duration and place that
/// were asked for, from its beginning and not paused; an earlier error is gone. The volume stays,
/// and a finished track that nobody has asked about yet stays finished.
pub proof fn started_tracks_are_loaded(s: StatusView, req: TrackView)
    ensures
        ({
            let t = played(s, req, Opened::Playing);
            &&& t.current is Some
            &&& t.current->0.artist == req.artist
            &&& t.current->0.title == req.title
            &&& t.current->0.duration == req.duration
            &&& t.current->0.artist_idx == req.artist_idx
            &&& t.current->0.song_idx == req.song_idx
            &&& t.elapsed.secs == 0 && t.elapsed.nanos == 0
            &&& !t.is_paused
            &&& t.error is None
            &&& t.volume == s.volume
            &&& t.just_finished == s.just_finished
        }),
{
}

/// A track that does not start is told of: by its path and the reason, or by the missing device.
pub proof fn failures_are_told(s: StatusView, req: TrackView, text: String)
    ensures
        played(s, req, Opened::NoDevice).error == Some("no audio output device available"@),
        played(s, req, Opened::Failed(text)).error == Some(req.path + ": "@ + text@),
{
}

/// Once stopped nothing is loaded; volume, error and finished tracks are as they were.
pub proof fn stopping_unloads(s: StatusView)
    ensures
        stopped(s).current is None,
        stopped(s).elapsed.secs == 0 && stopped(s).elapsed.nanos == 0,
        !stopped(s).is_paused,
        stopped(s).volume == s.volume,
        stopped(s).error == s.error,
        stopped(s).just_finished == s.just_finished,
{
}

/// The status follows the sound device: always its volume, and while a track plays its position and
/// whether it is paused. A track that has nothing left to play is unloaded and has finished. Nothing
/// else changes.
pub proof fn the_status_follows_the_device(s: StatusView, report: DeviceReport)
    ensures
        ({
            let t = refreshed(s, report);
            &&& t.volume == report.volume
            &&& t.error == s.error
            &&& s.current is None ==> t.current is None && t.elapsed == s.elapsed && t.is_paused
                == s.is_paused && t.just_finished == s.just_finished
            &&& s.current is Some && !report.is_empty ==> t.current == s.current && t.elapsed
                == report.position && t.is_paused == report.is_paused && t.just_finished
                == s.just_finished
            &&& s.current is Some && report.is_empty ==> t.current is None && t.elapsed.secs == 0
                && t.elapsed.nanos == 0 && !t.is_paused && t.just_finished
        }),
{
}

/// Each command leads to the operation of its name, with what it carries; a shutdown stops and ends
/// the thread, a lost connection ends it, and waiting in vain leads to nothing.
pub proof fn commands_are_carried_out(req: TrackRequest, delta: i32)
    ensures
        operation_of(WakeUp::Command(PlayerCommand::Play(req))) == (
            OperationView::Play(req@),
            true,
        ),
        operation_of(WakeUp::Command(PlayerCommand::TogglePause)) == (
            OperationView::TogglePause,
            true,
        ),
        operation_of(WakeUp::Command(PlayerCommand::Restart)) == (OperationView::Restart, true),
        operation_of(WakeUp::Command(PlayerCommand::Stop)) == (OperationView::Stop, true),
        operation_of(WakeUp::Command(PlayerCommand::AdjustVolume(delta))) == (
            OperationView::AdjustVolume(delta),
            true,
        ),
        operation_of(WakeUp::Command(PlayerCommand::Shutdown)) == (OperationView::Stop, false),
        operation_of(WakeUp::Timeout) == (OperationView::Nothing, true),
        operation_of(WakeUp::Disconnected) == (OperationView::Nothing, false),
{
}

/// The model of a track, of the loaded song and of the status has each field in its place.
pub proof fn player_views_hold_the_fields(req: TrackRequest, now: NowPlaying, status: PlayerStatus)
    ensures
        req@.path == req.path@,
        req@.artist == req.artist@,
        req@.title == req.title@,
        req@.duration == req.duration,
        req@.artist_idx == req.artist_idx,
        req@.song_idx == req.song_idx,
        now@.artist == now.artist@,
        now@.title == now.title@,
        now@.duration == now.duration,
        now@.artist_idx == now.artist_idx,
        now@.song_idx == now.song_idx,
        status.current is None <==> status@.current is None,
        status.current is Some ==> status@.current == Some(status.current->0@),
        status@.elapsed == status.elapsed,
        status@.is_paused == status.is_paused,
        status@.volume == status.volume,
        status.error is None <==> status@.error is None,
        status.error is Some ==> status@.error == Some(status.error->0@),
        status@.just_finished == status.just_finished,
{
}

/// The model of a command and of an operation is of the same kind and carries the same.
pub proof fn command_views_hold_the_fields(req: TrackRequest, delta: i32)
    ensures
        PlayerCommand::Play(req)@ == CommandView::Play(req@),
        PlayerCommand::TogglePause@ == CommandView::TogglePause,
        PlayerCommand::Restart@ == CommandView::Restart,
        PlayerCommand::Stop@ == CommandView::Stop,
        PlayerCommand::AdjustVolume(delta)@ == CommandView::AdjustVolume(delta),
        PlayerCommand::Shutdown@ == CommandView::Shutdown,
        Operation::Play(req)@ == OperationView::Play(req@),
        Operation::TogglePause@ == OperationView::TogglePause,
        Operation::Restart@ == OperationView::Restart,
        Operation::Stop@ == OperationView::Stop,
        Operation::AdjustVolume(delta)@ == OperationView::AdjustVolume(delta),
        Operation::Nothing@ == OperationView::Nothing,
{
}

} // verus!
