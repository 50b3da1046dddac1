use draft::activation::{InEvent, Mode};
use draft::clock::Instant;
use draft::pill::state::{Origin, SessionActivity};
use draft::session::{
    CaptureHandle, Command, Outcome, Session, SessionKind, MIN_CAPTURE_MS, TARGET_SR,
};


fn t(ms: u64) -> Instant {
    Instant::from_millis(ms)
}

/// The one activity a hotkey session ever starts with.
fn recording() -> Command<f32> {
    Command::ReportActivity(SessionActivity::Recording {
        origin: Origin::Hotkey,
    })
}

/// A scripted capture: `take_samples` yields exactly what it was built with.
struct FakeCapture {
    samples: Vec<f32>,
}

impl CaptureHandle for FakeCapture {
    type Sample = f32;

    fn take_samples(&self) -> Vec<f32> {
        self.samples.clone()
    }
}

/// Enough samples to clear the MIN_CAPTURE_MS floor.
fn long_capture() -> FakeCapture {
    let n = (TARGET_SR as usize * (MIN_CAPTURE_MS as usize + 50)) / 1000;
    FakeCapture {
        samples: vec![0.1; n],
    }
}

/// Test rig: a Hold-mode session with a transcriber available.
fn ready_session() -> Session<FakeCapture> {
    let mut s = Session::new(Mode::Hold {
        double_press_lock: false,
    });
    s.set_transcriber_available(true);
    s
}

/// Drive a session all the way into Processing, returning the live id.
fn into_processing(s: &mut Session<FakeCapture>) -> u64 {
    assert_eq!(
        s.begin(SessionKind::Dictate, Origin::Hotkey),
        vec![Command::StartCapture]
    );
    assert_eq!(s.capture_started(Some(long_capture())), vec![recording()]);
    let cmds = s.end(t(1000));
    match &cmds[..] {
        [Command::ReportActivity(SessionActivity::Processing { .. }), Command::SpawnTranscription { session_id, .. }] => {
            *session_id
        }
        other => panic!("expected Processing + Spawn, got {other:?}"),
    }
}

#[test]
fn happy_path_records_processes_and_flashes_green() {
    let mut s = ready_session();
    let id = into_processing(&mut s);
    assert!(s.is_processing());
    // The worker delivers: the session reports a successful finish and is
    // over — the flash that follows is the Pill core's to time.
    let cmds = s.on_outcome(id, Outcome::Delivered);
    assert_eq!(
        cmds,
        vec![Command::ReportActivity(SessionActivity::Finished {
            ok: true
        })]
    );
    assert!(s.is_idle());
}

#[test]
fn stale_outcome_emits_no_activity_report() {
    let mut s = ready_session();
    let id = into_processing(&mut s);
    // An outcome for a *different* session (the user re-triggered, or a
    // slow earlier worker) must not touch the pill.
    let cmds = s.on_outcome(id.wrapping_add(1), Outcome::Delivered);
    assert!(cmds.is_empty(), "stale outcome produced commands: {cmds:?}");
    // And the real session is untouched — still processing.
    assert!(s.is_processing());
}

#[test]
fn second_press_while_processing_does_not_overlap_capture() {
    let mut s = ready_session();
    let first = into_processing(&mut s);
    // A fresh press while the worker still runs supersedes it.
    assert_eq!(
        s.begin(SessionKind::Dictate, Origin::Hotkey),
        vec![Command::StartCapture]
    );
    assert_eq!(s.capture_started(Some(long_capture())), vec![recording()]);
    assert!(s.is_recording());
    // Stopping the new capture mints a *new* id (no id reuse, no overlap).
    let second = into_processing_from_recording(&mut s);
    assert_ne!(first, second);
    // The superseded worker's outcome is now ignored.
    assert!(s.on_outcome(first, Outcome::Delivered).is_empty());
}

// Helper: stop a session already in Recording, asserting Processing.
fn into_processing_from_recording(s: &mut Session<FakeCapture>) -> u64 {
    match &s.end(t(2000))[..] {
        [Command::ReportActivity(SessionActivity::Processing { .. }), Command::SpawnTranscription { session_id, .. }] => {
            *session_id
        }
        other => panic!("expected Processing + Spawn, got {other:?}"),
    }
}

#[test]
fn capture_start_failure_leaves_consistent_non_recording_state() {
    let mut s = ready_session();
    assert_eq!(
        s.begin(SessionKind::Dictate, Origin::Hotkey),
        vec![Command::StartCapture]
    );
    // The open failed: no pill, no recording, and the FSM is rebuilt so a
    // later press starts cleanly rather than being read as a "stop".
    let cmds = s.capture_started(None);
    assert!(cmds.is_empty(), "failed start produced commands: {cmds:?}");
    assert!(!s.is_recording());
    assert!(s.capturing_kind().is_none());
    // Next press starts a brand-new capture, proving the FSM isn't stuck
    // thinking it's already recording.
    assert_eq!(
        s.on_dictate_input(InEvent::Pressed(t(100))),
        vec![Command::StartCapture]
    );
}

#[test]
fn too_short_capture_reports_no_activity_without_transcribing() {
    let mut s = ready_session();
    s.begin(SessionKind::Dictate, Origin::Hotkey);
    s.capture_started(Some(FakeCapture {
        samples: vec![0.1; 10],
    }));
    // Below the floor: nothing to show, no worker.
    assert_eq!(
        s.end(t(1000)),
        vec![Command::ReportActivity(SessionActivity::NoSession)]
    );
    assert!(s.is_idle());
}

#[test]
fn no_transcriber_reports_no_activity_instead_of_parking_in_processing() {
    let mut s = Session::new(Mode::Hold {
        double_press_lock: false,
    });
    // transcriber_available defaults to false.
    s.begin(SessionKind::Dictate, Origin::Hotkey);
    s.capture_started(Some(long_capture()));
    assert_eq!(
        s.end(t(1000)),
        vec![Command::ReportActivity(SessionActivity::NoSession)]
    );
    assert!(s.is_idle());
}

#[test]
fn empty_outcome_reports_no_activity_rather_than_a_flash() {
    let mut s = ready_session();
    let id = into_processing(&mut s);
    assert_eq!(
        s.on_outcome(id, Outcome::Empty),
        vec![Command::ReportActivity(SessionActivity::NoSession)]
    );
    assert!(s.is_idle());
}

#[test]
fn hold_press_release_runs_the_dictate_fsm_end_to_end() {
    let mut s = ready_session();
    // Press → start capture.
    assert_eq!(
        s.on_dictate_input(InEvent::Pressed(t(0))),
        vec![Command::StartCapture]
    );
    s.capture_started(Some(long_capture()));
    // Release → commit to a worker.
    let cmds = s.on_dictate_input(InEvent::Released(t(500)));
    assert!(matches!(
        cmds[..],
        [
            Command::ReportActivity(SessionActivity::Processing { .. }),
            Command::SpawnTranscription { .. }
        ]
    ));
}

/// Drive a chord (via its own input method) from idle all the way into
/// Processing, asserting the spawn and returning its routed session kind.
fn spawn_kind_for(
    s: &mut Session<FakeCapture>,
    input: fn(&mut Session<FakeCapture>, InEvent) -> Vec<Command<f32>>,
) -> SessionKind {
    assert_eq!(
        input(s, InEvent::Pressed(t(0))),
        vec![Command::StartCapture]
    );
    assert_eq!(s.capture_started(Some(long_capture())), vec![recording()]);
    match &input(s, InEvent::Released(t(500)))[..] {
        [Command::ReportActivity(SessionActivity::Processing { .. }), Command::SpawnTranscription { session_kind, .. }] => {
            *session_kind
        }
        other => panic!("expected Processing + Spawn, got {other:?}"),
    }
}

#[test]
fn command_chord_routes_spawn_to_the_command_path() {
    let mut s = ready_session();
    // Driving the command chord's FSM end-to-end must tag the spawned worker
    // as Command, so the adapter routes it to the LLM instruction path.
    assert_eq!(
        spawn_kind_for(&mut s, Session::on_command_input),
        SessionKind::Command
    );
}

#[test]
fn dictate_chord_routes_spawn_to_the_dictate_path() {
    let mut s = ready_session();
    // The dictation chord tags its worker as Dictate → plain postprocess path.
    assert_eq!(
        spawn_kind_for(&mut s, Session::on_dictate_input),
        SessionKind::Dictate
    );
}

#[test]
fn one_chord_cannot_corrupt_the_others_press_release_state() {
    let mut s = ready_session();
    // The command chord is held → its FSM starts a capture.
    assert_eq!(
        s.on_command_input(InEvent::Pressed(t(0))),
        vec![Command::StartCapture]
    );
    // A stray release on the *dictate* chord (never pressed) is ignored: its
    // FSM has independent state, untouched by the command press. If the two
    // shared one FSM this would misfire as a Stop.
    assert!(s.on_dictate_input(InEvent::Released(t(100))).is_empty());
    // The command chord then still stops cleanly on its own release, routed
    // to the command path — proving its state survived intact.
    s.capture_started(Some(long_capture()));
    let cmds = s.on_command_input(InEvent::Released(t(200)));
    assert!(matches!(
        cmds[..],
        [
            Command::ReportActivity(SessionActivity::Processing { .. }),
            Command::SpawnTranscription {
                session_kind: SessionKind::Command,
                ..
            }
        ]
    ));
}

#[test]
fn command_capture_start_failure_resets_the_command_fsm() {
    let mut s = ready_session();
    assert_eq!(
        s.on_command_input(InEvent::Pressed(t(0))),
        vec![Command::StartCapture]
    );
    // Open failed: no pill, no recording, and the command FSM is rebuilt so a
    // later command press starts fresh instead of reading as a stop.
    assert!(s.capture_started(None).is_empty());
    assert!(!s.is_recording());
    assert!(s.capturing_kind().is_none());
    assert_eq!(
        s.on_command_input(InEvent::Pressed(t(100))),
        vec![Command::StartCapture]
    );
}

/// A click-started session, recording. The rig every test below shares.
fn click_recording() -> Session<FakeCapture> {
    let mut s = ready_session();
    assert_eq!(s.start_from_click(), vec![Command::StartCapture]);
    assert_eq!(
        s.capture_started(Some(long_capture())),
        vec![Command::ReportActivity(SessionActivity::Recording {
            origin: Origin::Click
        })]
    );
    s
}

/// The click path is the chord path with a different origin on it: same
/// capture, same commit, same worker, routed to the same pipeline.
#[test]
fn a_click_started_session_runs_the_same_lifecycle_as_a_chord() {
    let mut s = click_recording();
    assert!(s.is_recording());
    assert_eq!(s.capturing_kind(), Some(SessionKind::Dictate));
    match &s.confirm(t(1000))[..] {
        [Command::ReportActivity(SessionActivity::Processing { .. }), Command::SpawnTranscription { session_kind, .. }] =>
        {
            assert_eq!(*session_kind, SessionKind::Dictate)
        }
        other => panic!("expected Processing + Spawn, got {other:?}"),
    }
    assert!(s.is_processing());
}

/// Confirm is releasing the hotkey — not merely equivalent to it, the same
/// call. Asserted as the same command list off two identical sessions.
#[test]
fn confirm_is_identical_to_releasing_the_hotkey() {
    let by_click = click_recording().confirm(t(1000));
    let mut by_chord = ready_session();
    by_chord.on_dictate_input(InEvent::Pressed(t(0)));
    by_chord.capture_started(Some(long_capture()));
    let by_chord = by_chord.on_dictate_input(InEvent::Released(t(1000)));
    // Same shape, same commit. The ids differ only because they are two
    // sessions; everything the adapter acts on is the same.
    assert_eq!(by_click.len(), by_chord.len());
    assert_eq!(by_click[0], by_chord[0]);
    assert!(matches!(
        (&by_click[1], &by_chord[1]),
        (
            Command::SpawnTranscription {
                session_kind: SessionKind::Dictate,
                ..
            },
            Command::SpawnTranscription {
                session_kind: SessionKind::Dictate,
                ..
            }
        )
    ));
}

/// The keyboard is always available: a chord press over a click-started
/// session finishes it exactly as confirm would, and the release that
/// follows it a beat later does nothing.
#[test]
fn a_hotkey_press_finishes_a_click_started_session() {
    let mut s = click_recording();
    let by_press = s.on_dictate_input(InEvent::Pressed(t(1000)));
    let by_confirm = click_recording().confirm(t(1000));
    assert_eq!(
        by_press[0], by_confirm[0],
        "a press did not finish it the way confirm does"
    );
    assert!(matches!(
        (&by_press[1], &by_confirm[1]),
        (
            Command::SpawnTranscription { .. },
            Command::SpawnTranscription { .. }
        )
    ));
    assert!(s.is_processing());
    // The FSM never saw this session start, so its release must not read
    // as a stop for one that is already at a worker.
    assert!(s.on_dictate_input(InEvent::Released(t(1100))).is_empty());
    assert!(s.is_processing());
    // And the next chord press starts a fresh session cleanly, which is
    // what proves the FSM was left alone rather than half-driven.
    assert_eq!(
        s.on_dictate_input(InEvent::Pressed(t(2000))),
        vec![Command::StartCapture]
    );
}

/// The *dictation* chord finishes it, and no other. Push-to-command is a
/// different pipeline, not a second stop button: ending a dictation with it
/// would paste a transcript where the user asked for an answer.
#[test]
fn the_command_chord_does_not_finish_a_click_started_session() {
    let mut s = click_recording();
    assert!(s.on_command_input(InEvent::Pressed(t(1000))).is_empty());
    assert!(s.is_recording(), "the command chord ended a dictation");
    assert!(s.on_command_input(InEvent::Released(t(1100))).is_empty());
    assert!(s.is_recording());
    // The dictation chord still finishes it, and the command chord is
    // untouched — a press after the session is over starts its own.
    assert!(!s.on_dictate_input(InEvent::Pressed(t(1200))).is_empty());
    assert!(s.is_processing());
    assert_eq!(
        s.on_command_input(InEvent::Pressed(t(1300))),
        vec![Command::StartCapture]
    );
}

/// Cancel discards: no transcription, no history, no flash. The whole of
/// it is one `None` — the absences are structural, since nothing is
/// spawned and only an outcome can produce a flash.
#[test]
fn cancel_discards_the_audio_without_reporting_an_outcome() {
    let mut s = click_recording();
    assert_eq!(
        s.cancel(),
        vec![Command::ReportActivity(SessionActivity::NoSession)]
    );
    assert!(s.is_idle());
    // Nothing to resolve, so nothing can flash: there is no session id a
    // worker could report against.
    assert!(s.on_outcome(1, Outcome::Delivered).is_empty());
    assert!(s.on_outcome(0, Outcome::Failed).is_empty());
}

/// Cancel is Recording-only. Once the handoff has begun the capture is at
/// a worker, and a click that was live a frame ago must not try to recall
/// it — nor take the pill out from under the Processing it is showing.
#[test]
fn a_cancel_after_the_handoff_is_ignored() {
    let mut s = click_recording();
    s.confirm(t(1000));
    assert!(s.is_processing());
    assert!(s.cancel().is_empty(), "a late cancel reached the pill");
    assert!(s.is_processing());
    // Idle too: the button cannot be up, but neither may a stray reach it.
    let mut idle = ready_session();
    assert!(idle.cancel().is_empty());
}

#[test]
fn capturing_kind_tracks_the_active_chord() {
    let mut s = ready_session();
    assert_eq!(s.capturing_kind(), None);
    s.begin(SessionKind::Command, Origin::Hotkey);
    assert_eq!(s.capturing_kind(), Some(SessionKind::Command));
    s.capture_started(Some(long_capture()));
    assert_eq!(s.capturing_kind(), Some(SessionKind::Command));
    // Once processing, a new chord may take over → no longer "capturing".
    s.end(t(1000));
    assert_eq!(s.capturing_kind(), None);
}

/// A new mode reaches both hotkeys, and forgets a key that was down.
#[test]
fn a_new_mode_rebuilds_both_hotkeys() {
    let mut s = ready_session();
    assert_eq!(
        s.on_dictate_input(InEvent::Pressed(t(0))),
        vec![Command::StartCapture]
    );
    assert!(s.capture_started(None).is_empty());
    s.reset_activation(Mode::Toggle);
    for press in [1000, 3000] {
        assert_eq!(
            s.on_command_input(InEvent::Pressed(t(press))),
            vec![Command::StartCapture]
        );
        assert_eq!(s.capture_started(Some(long_capture())), vec![recording()]);
        assert!(s.on_command_input(InEvent::Released(t(press + 100))).is_empty());
        assert_eq!(s.capturing_kind(), Some(SessionKind::Command));
        assert_eq!(s.on_command_input(InEvent::Pressed(t(press + 900))).len(), 2);
        assert!(s.on_command_input(InEvent::Released(t(press + 950))).is_empty());
    }
    assert_eq!(
        s.on_dictate_input(InEvent::Pressed(t(9000))),
        vec![Command::StartCapture]
    );
    assert!(s.on_dictate_input(InEvent::Released(t(9100))).is_empty());
    assert_eq!(s.capturing_kind(), Some(SessionKind::Dictate));
}
