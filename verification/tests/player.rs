use rmus::player::{
    plan, DeviceReport, Opened, Operation, PauseAction, PlayerCommand, PlayerStatus, TrackRequest,
    WakeUp, FULL_VOLUME,
};
use rmus::time::Duration;

fn request() -> TrackRequest {
    TrackRequest {
        path: "/a.mp3".to_string(),
        artist: "artist".to_string(),
        title: "title".to_string(),
        duration: Duration { secs: 180, nanos: 0 },
        artist_idx: 3,
        song_idx: 5,
    }
}

fn report(secs: u64, is_paused: bool, is_empty: bool) -> DeviceReport {
    DeviceReport { volume: 0x3f00_0000, position: Duration { secs, nanos: 0 }, is_paused, is_empty }
}

fn playing() -> PlayerStatus {
    let mut status = PlayerStatus::default();
    status.handle_play(request(), Opened::Playing);
    status
}

#[test]
fn starts_with_nothing_at_full_volume() {
    let status = PlayerStatus::default();
    assert!(status.current.is_none());
    assert_eq!(status.elapsed, Duration { secs: 0, nanos: 0 });
    assert!(!status.is_paused);
    assert_eq!(f32::from_bits(status.volume), 1.0);
    assert_eq!(FULL_VOLUME, 1.0f32.to_bits());
    assert!(status.error.is_none());
    assert!(!status.just_finished);
}

#[test]
fn a_missing_device_is_reported() {
    let mut status = PlayerStatus::default();
    status.device_unavailable("no such device");
    assert_eq!(status.error.as_deref(), Some("audio output unavailable: no such device"));
    status.handle_play(request(), Opened::NoDevice);
    assert_eq!(status.error.as_deref(), Some("no audio output device available"));
    assert!(status.current.is_none());
}

#[test]
fn a_track_that_opens_is_loaded() {
    let mut status = PlayerStatus::default();
    status.error = Some("earlier".to_string());
    status.is_paused = true;
    status.elapsed = Duration { secs: 9, nanos: 0 };
    status.handle_play(request(), Opened::Playing);
    let now = status.current.as_ref().unwrap();
    assert_eq!(now.artist, "artist");
    assert_eq!(now.title, "title");
    assert_eq!(now.duration, Duration { secs: 180, nanos: 0 });
    assert_eq!((now.artist_idx, now.song_idx), (3, 5));
    assert_eq!(status.elapsed, Duration { secs: 0, nanos: 0 });
    assert!(!status.is_paused);
    assert!(status.error.is_none());
}

#[test]
fn a_track_that_fails_leaves_the_loaded_one() {
    let mut status = playing();
    let mut other = request();
    other.path = "/b.mp3".to_string();
    other.song_idx = 6;
    status.handle_play(other, Opened::Failed("no such file".to_string()));
    assert_eq!(status.error.as_deref(), Some("/b.mp3: no such file"));
    assert_eq!(status.current.as_ref().unwrap().song_idx, 5);
}

#[test]
fn pausing_needs_a_track() {
    let status = PlayerStatus::default();
    assert_eq!(status.handle_toggle_pause(true), PauseAction::Nothing);
    assert_eq!(status.handle_toggle_pause(false), PauseAction::Nothing);
    let mut status = playing();
    assert_eq!(status.handle_toggle_pause(true), PauseAction::Resume);
    assert_eq!(status.handle_toggle_pause(false), PauseAction::Pause);
    status.pause_toggled(true);
    assert!(status.is_paused);
    status.pause_toggled(false);
    assert!(!status.is_paused);
}

#[test]
fn restarting_needs_a_track() {
    assert!(!PlayerStatus::default().handle_restart());
    let mut status = playing();
    status.elapsed = Duration { secs: 30, nanos: 0 };
    assert!(status.handle_restart());
    status.restarted(Err("not seekable".to_string()));
    assert_eq!(status.error.as_deref(), Some("not seekable"));
    assert_eq!(status.elapsed, Duration { secs: 30, nanos: 0 });
    status.restarted(Ok(()));
    assert_eq!(status.elapsed, Duration { secs: 0, nanos: 0 });
}

#[test]
fn stopping_unloads_and_does_not_finish() {
    let mut status = playing();
    status.is_paused = true;
    status.handle_stop();
    assert!(status.current.is_none());
    assert!(!status.is_paused);
    assert_eq!(status.elapsed, Duration { secs: 0, nanos: 0 });
    status.refresh_status(report(0, false, true));
    assert!(!status.just_finished);
}

#[test]
fn refreshing_follows_the_device() {
    let mut status = playing();
    status.refresh_status(report(12, true, false));
    assert_eq!(status.elapsed, Duration { secs: 12, nanos: 0 });
    assert!(status.is_paused);
    assert_eq!(f32::from_bits(status.volume), 0.5);
    assert!(!status.just_finished);
    let mut idle = PlayerStatus::default();
    idle.refresh_status(report(12, true, false));
    assert_eq!(idle.elapsed, Duration { secs: 0, nanos: 0 });
    assert!(!idle.is_paused);
    assert_eq!(f32::from_bits(idle.volume), 0.5);
}

#[test]
fn a_track_finishes_once() {
    let mut status = playing();
    status.refresh_status(report(180, false, true));
    assert!(status.just_finished);
    assert!(status.current.is_none());
    assert_eq!(status.elapsed, Duration { secs: 0, nanos: 0 });
    assert_eq!(status.take_events(), (None, true));
    status.refresh_status(report(180, false, true));
    assert_eq!(status.take_events(), (None, false));
}

#[test]
fn an_error_is_taken_once() {
    let mut status = PlayerStatus::default();
    status.error = Some("oops".to_string());
    assert_eq!(status.take_events(), (Some("oops".to_string()), false));
    assert_eq!(status.take_events(), (None, false));
}

#[test]
fn each_command_has_its_operation() {
    assert!(matches!(plan(WakeUp::Command(PlayerCommand::Play(request()))), (Operation::Play(r), true) if r.song_idx == 5));
    assert!(matches!(plan(WakeUp::Command(PlayerCommand::TogglePause)), (Operation::TogglePause, true)));
    assert!(matches!(plan(WakeUp::Command(PlayerCommand::Restart)), (Operation::Restart, true)));
    assert!(matches!(plan(WakeUp::Command(PlayerCommand::Stop)), (Operation::Stop, true)));
    assert!(matches!(plan(WakeUp::Command(PlayerCommand::AdjustVolume(-5))), (Operation::AdjustVolume(-5), true)));
    assert!(matches!(plan(WakeUp::Command(PlayerCommand::Shutdown)), (Operation::Stop, false)));
    assert!(matches!(plan(WakeUp::Timeout), (Operation::Nothing, true)));
    assert!(matches!(plan(WakeUp::Disconnected), (Operation::Nothing, false)));
}
