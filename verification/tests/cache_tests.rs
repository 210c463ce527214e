use icosphere::cache::ItemBufferState;
use icosphere::cache::Rebuild;
use icosphere::cache::Renderer;
use icosphere::cache::RendererInvalid;
use icosphere::cache::Size;

#[test]
fn size_holds_dimensions() {
    let s = Size::new(1280, 720);
    assert_eq!(s.width, 1280);
    assert_eq!(s.height, 720);
}

#[test]
fn hysteresis_reallocates_only_past_thresholds() {
    // Against an initial capacity of 100, the update sequence
    // [100, 101, 99, 150, 60] must reallocate exactly at 101 (growth),
    // 150 (growth) and 60 (shrink below half of 150).
    let mut buf = ItemBufferState::new(100);
    let lens = [100usize, 101, 99, 150, 60];
    let expected_realloc = [false, true, false, true, true];
    let expected_capacity = [100usize, 101, 101, 150, 60];
    let expected_generation = [0u64, 1, 1, 2, 3];
    for step in 0..lens.len() {
        let realloc = buf.update(lens[step]);
        assert_eq!(realloc, expected_realloc[step], "step {}", step);
        assert_eq!(buf.capacity, expected_capacity[step], "step {}", step);
        assert_eq!(buf.generation, expected_generation[step], "step {}", step);
        assert_eq!(buf.num_items, lens[step], "step {}", step);
        assert_eq!(buf.id(), buf.generation);
        assert_eq!(buf.num_items(), lens[step]);
    }
}

#[test]
fn hysteresis_boundaries_are_exact() {
    let mut buf = ItemBufferState::new(100);
    assert!(!buf.update(100), "exactly the capacity stays in place");
    assert!(!buf.update(50), "exactly half the capacity stays in place");
    assert_eq!(buf.capacity, 100);
    assert!(buf.update(49), "below half the capacity reallocates");
    assert_eq!(buf.capacity, 49);
    assert_eq!(buf.generation, 1);
    assert!(buf.update(50), "above the new capacity reallocates");
    assert_eq!(buf.capacity, 50);
    assert_eq!(buf.generation, 2);
}

#[test]
fn fresh_renderer_is_fully_valid() {
    let r = Renderer::new(7);
    assert!(r.pipeline_valid);
    assert!(r.bundle_valid);
    assert_eq!(r.last_id, 7);
}

#[test]
fn update_without_changes_rebuilds_nothing() {
    let mut r = Renderer::new(3);
    let plan = r.update(3);
    assert_eq!(plan, Rebuild { pipeline: false, bundle: false });
    assert!(r.pipeline_valid && r.bundle_valid);
}

#[test]
fn generation_change_rebuilds_bundle_only() {
    let mut r = Renderer::new(0);
    let plan = r.update(1);
    assert_eq!(plan, Rebuild { pipeline: false, bundle: true });
    assert_eq!(r.last_id, 1);
    // the same identity again is quiet
    let plan = r.update(1);
    assert_eq!(plan, Rebuild { pipeline: false, bundle: false });
}

#[test]
fn pipeline_invalidation_rebuilds_both() {
    let mut r = Renderer::new(0);
    r.invalid(RendererInvalid::Pipeline);
    assert!(!r.pipeline_valid);
    let plan = r.update(0);
    assert_eq!(plan, Rebuild { pipeline: true, bundle: true });
    assert!(r.pipeline_valid && r.bundle_valid);
}

#[test]
fn bundle_invalidation_rebuilds_bundle_only() {
    let mut r = Renderer::new(0);
    r.invalid(RendererInvalid::Bundle);
    let plan = r.update(0);
    assert_eq!(plan, Rebuild { pipeline: false, bundle: true });
}

#[test]
fn buffer_growth_drives_renderer_rebuild() {
    // The composed protocol: a vertex-buffer reallocation changes the
    // generation, and the next renderer update re-records the bundle.
    let mut buf = ItemBufferState::new(60);
    let mut r = Renderer::new(buf.id());
    let plan = r.update(buf.id());
    assert_eq!(plan, Rebuild { pipeline: false, bundle: false });
    assert!(buf.update(240), "growth reallocates");
    let plan = r.update(buf.id());
    assert_eq!(plan, Rebuild { pipeline: false, bundle: true });
    assert!(!buf.update(200), "a content-only change keeps the generation");
    let plan = r.update(buf.id());
    assert_eq!(plan, Rebuild { pipeline: false, bundle: false });
}
