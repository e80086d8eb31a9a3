use trench::redraw::FrameState;

#[test]
fn needs_redraw_defaults_to_true_so_first_frame_draws() {
    let app = FrameState::new();
    assert!(app.needs_redraw);
}

#[test]
fn check_needs_redraw_reads_and_clears() {
    let mut app = FrameState::new();
    assert!(app.check_needs_redraw(), "first call returns true");
    assert!(!app.check_needs_redraw(), "second call returns false (flag cleared)");
    app.mark_dirty();
    assert!(app.check_needs_redraw(), "mark_dirty re-arms the flag");
    assert!(!app.check_needs_redraw(), "and clears again on the next read");
}

#[test]
fn mark_dirty_is_idempotent() {
    let mut app = FrameState::new();
    let _ = app.check_needs_redraw();
    app.mark_dirty();
    app.mark_dirty();
    app.mark_dirty();
    assert!(app.check_needs_redraw(), "still just one redraw needed");
    assert!(!app.check_needs_redraw());
}

#[test]
fn has_active_animation_false_on_idle_app() {
    let mut app = FrameState::new();
    let _ = app.check_needs_redraw();
    assert!(!app.has_active_animation());
}

#[test]
fn has_active_animation_true_when_loading() {
    let mut app = FrameState::new();
    let _ = app.check_needs_redraw();
    app.is_loading = true;
    assert!(app.has_active_animation());
    app.is_loading = false;
    app.is_refreshing = true;
    assert!(app.has_active_animation());
    app.is_refreshing = false;
    app.discovery_loading = true;
    assert!(app.has_active_animation());
}
