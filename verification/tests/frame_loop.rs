use brainworms::frame_loop::{
    ControlMode, LoopEvent, LoopResponse, LoopState, SurfaceAction, WindowInput, Work,
};
use brainworms::input::{AcceptedInputs, ElementState};

#[test]
fn a_redraw_draws_a_frame_and_asks_to_poll() {
    let mut s = LoopState::new(false, 800, 600);
    let r = s.step(LoopEvent::RedrawRequested);
    assert_eq!(r, LoopResponse { surface: SurfaceAction::Keep, control: Some(ControlMode::Poll), work: Work::RenderFrame });
    assert_eq!(s.last_user_control, ControlMode::Poll);
}

#[test]
fn nothing_is_drawn_while_suspended() {
    let mut s = LoopState::new(true, 800, 600);
    assert!(s.suspended);
    assert!(!s.has_surface);
    let before = s;
    let r = s.step(LoopEvent::RedrawRequested);
    assert_eq!(r.work, Work::Nothing);
    assert_eq!(r.control, None);
    assert_eq!(s, before);
}

#[test]
fn suspend_then_resume() {
    let mut s = LoopState::new(false, 800, 600);
    let r = s.step(LoopEvent::Suspended);
    assert_eq!(r.surface, SurfaceAction::Drop);
    assert_eq!(r.control, Some(ControlMode::Wait));
    assert!(s.suspended && !s.has_surface);
    let r = s.step(LoopEvent::Resumed);
    assert_eq!(r.surface, SurfaceAction::Create);
    assert_eq!(r.control, Some(ControlMode::Poll));
    assert!(!s.suspended && s.has_surface);
    let r = s.step(LoopEvent::Resumed);
    assert_eq!(r.surface, SurfaceAction::Keep);
}

#[test]
fn resizing_reconfigures_unless_empty() {
    let mut s = LoopState::new(false, 800, 600);
    let r = s.step(LoopEvent::Window { input: WindowInput::Resized { width: 1024, height: 768 }, consumed_by_ui: false });
    assert_eq!(r.surface, SurfaceAction::Reconfigure { width: 1024, height: 768 });
    assert_eq!(r.work, Work::ResizeUi { width: 1024, height: 768 });
    assert_eq!((s.surface_width, s.surface_height), (1024, 768));
    let r = s.step(LoopEvent::Window { input: WindowInput::Resized { width: 0, height: 768 }, consumed_by_ui: false });
    assert_eq!(r.surface, SurfaceAction::Keep);
    assert_eq!(r.work, Work::ResizeUi { width: 0, height: 768 });
    assert_eq!((s.surface_width, s.surface_height), (1024, 768));
}

#[test]
fn a_resize_ends_a_suspension() {
    let mut s = LoopState::new(true, 800, 600);
    s.step(LoopEvent::Window { input: WindowInput::Resized { width: 0, height: 0 }, consumed_by_ui: true });
    assert!(!s.suspended);
}

#[test]
fn window_input_reaches_the_game_unless_the_ui_took_it() {
    let mut s = LoopState::new(false, 800, 600);
    let key = WindowInput::Button { input: AcceptedInputs::KB(30), state: ElementState::Pressed };
    let r = s.step(LoopEvent::Window { input: key, consumed_by_ui: false });
    assert_eq!(r.work, Work::RecordInput { input: AcceptedInputs::KB(30), state: ElementState::Pressed });
    let r = s.step(LoopEvent::Window { input: key, consumed_by_ui: true });
    assert_eq!(r.work, Work::Nothing);
    let r = s.step(LoopEvent::Window { input: WindowInput::CloseRequested, consumed_by_ui: false });
    assert_eq!(r.work, Work::Exit);
    let r = s.step(LoopEvent::Window { input: WindowInput::UnidentifiedKey, consumed_by_ui: false });
    assert_eq!(r.work, Work::Nothing);
    let r = s.step(LoopEvent::Window { input: WindowInput::CursorMoved, consumed_by_ui: false });
    assert_eq!(r.work, Work::MoveCursor);
}

#[test]
fn other_events_map_to_their_work() {
    let mut s = LoopState::new(false, 800, 600);
    assert_eq!(s.step(LoopEvent::AboutToWait).work, Work::HandleInputAndRequestRedraw);
    assert_eq!(s.step(LoopEvent::MouseMotion).work, Work::MoveCamera);
    assert_eq!(s.step(LoopEvent::StageLoaded).work, Work::AttachStage);
    assert_eq!(s.step(LoopEvent::ActressLoaded).work, Work::AttachActress);
    assert_eq!(s.step(LoopEvent::Ignored).work, Work::Nothing);
}

#[test]
fn suspension_lasts_until_resume_or_resize() {
    let mut s = LoopState::new(false, 800, 600);
    s.step(LoopEvent::Suspended);
    s.step(LoopEvent::AboutToWait);
    s.step(LoopEvent::MouseMotion);
    assert!(s.suspended);
    assert_eq!(s.step(LoopEvent::RedrawRequested).work, Work::Nothing);
    s.step(LoopEvent::Resumed);
    assert_eq!(s.step(LoopEvent::RedrawRequested).work, Work::RenderFrame);
}
