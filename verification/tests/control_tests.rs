use std::time::Duration;

use icosphere::cache::IcoRendererSettings;
use icosphere::clock::Clock;
use icosphere::clock::TickBuffer;
use icosphere::control::camera_action;
use icosphere::control::frame_recovery;
use icosphere::control::highlight_siblings;
use icosphere::control::selection_update;
use icosphere::control::CameraAction;
use icosphere::control::FrameError;
use icosphere::control::FrameRecovery;
use icosphere::mesh::Ico;
use icosphere::ui::UiIo;
use icosphere::ui::UiValue;

#[test]
fn camera_reacts_only_to_uncaptured_drags() {
    assert_eq!(camera_action(false, false, false), CameraAction::Idle);
    assert_eq!(camera_action(false, false, true), CameraAction::Idle);
    assert_eq!(camera_action(false, true, false), CameraAction::Idle);
    assert_eq!(camera_action(false, true, true), CameraAction::Idle);
    assert_eq!(camera_action(true, true, false), CameraAction::Idle);
    assert_eq!(camera_action(true, true, true), CameraAction::Idle);
    assert_eq!(camera_action(true, false, false), CameraAction::Rotate);
    assert_eq!(camera_action(true, false, true), CameraAction::Pan);
}

#[test]
fn every_frame_failure_has_a_recovery() {
    assert_eq!(frame_recovery(FrameError::SurfaceLost), FrameRecovery::RebuildSurface);
    assert_eq!(frame_recovery(FrameError::OutOfMemory), FrameRecovery::SkipFrame);
    assert_eq!(frame_recovery(FrameError::Other), FrameRecovery::LogAndSkip);
}

#[test]
fn highlight_resolves_siblings_or_zeros() {
    let mesh = Ico::base();
    let f = mesh.face(5).unwrap();
    let expected = [
        f.siblings[0].unwrap(),
        f.siblings[1].unwrap(),
        f.siblings[2].unwrap(),
    ];
    assert_eq!(highlight_siblings(&mesh, 5), expected);
    assert_eq!(highlight_siblings(&mesh, 0), [0, 0, 0]);
    assert_eq!(highlight_siblings(&mesh, 21), [0, 0, 0]);
}

#[test]
fn selection_updates_only_on_change() {
    let mesh = Ico::base();
    assert_eq!(selection_update(&mesh, 5, 5), None);
    let triple = selection_update(&mesh, 5, 7).expect("a changed index resolves");
    assert_eq!(triple, highlight_siblings(&mesh, 7));
    // deselection: decoding the sentinel zeroes the highlight
    assert_eq!(selection_update(&mesh, 7, 0), Some([0, 0, 0]));
}

#[test]
fn ui_value_reports_each_change_once() {
    let mut v: UiValue<i32> = UiValue::new(1);
    assert_eq!(v.get(), 1);
    assert!(v.on_change().is_none());
    v.set(3);
    assert_eq!(v.get(), 3);
    assert_eq!(v.on_change().copied(), Some(3));
    assert!(v.on_change().is_none());
    v.set(3);
    assert!(v.on_change().is_none(), "re-setting the same value is no change");
    v.set(4);
    v.set(5);
    assert_eq!(v.on_change().copied(), Some(5), "only the latest edit is reported");
    assert!(v.on_change().is_none());
}

#[test]
fn ui_io_holds_capture_flags() {
    let io = UiIo::new(true, false);
    assert!(io.wants_mouse);
    assert!(!io.wants_keyboard);
}

#[test]
fn renderer_settings_name_shaders() {
    let s = IcoRendererSettings { vs: "ico.vert", fs: "ico.frag" };
    assert_eq!(s.vs, "ico.vert");
    assert_eq!(s.fs, "ico.frag");
}

#[test]
fn tick_buffer_swallows_first_push_and_trims() {
    let mut buf = TickBuffer::new();
    assert_eq!(buf.items().len(), 0);
    buf.push(Duration::from_millis(1), 3);
    assert_eq!(buf.items().len(), 0, "the first push only primes the window");
    for ms in 2..=6u64 {
        buf.push(Duration::from_millis(ms), 3);
    }
    let items = buf.items();
    assert_eq!(
        items,
        vec![
            Duration::from_millis(4),
            Duration::from_millis(5),
            Duration::from_millis(6)
        ],
        "only the three most recent durations stay, oldest first"
    );
}

#[test]
fn tick_buffer_window_of_zero_keeps_nothing() {
    let mut buf = TickBuffer::new();
    buf.push(Duration::from_millis(1), 0);
    buf.push(Duration::from_millis(2), 0);
    assert_eq!(buf.items().len(), 0);
}

#[test]
fn clock_records_after_the_first_frame() {
    let mut clock = Clock::new(60);
    assert_eq!(clock.target_rate, 60);
    assert_eq!(clock.recent_ticks().len(), 0);
    clock.tick();
    assert_eq!(clock.recent_ticks().len(), 0, "the first tick only primes");
    clock.tick();
    assert_eq!(clock.recent_ticks().len(), 1);
    clock.tick();
    assert_eq!(clock.recent_ticks().len(), 2);
}
