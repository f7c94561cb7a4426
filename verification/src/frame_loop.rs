//! The decisions of the window event loop: what each event does to the
//! presentation surface, to the loop's control mode and to the game.
//!
//! The caller runs the loop: it turns each window-system event into a
//! [`LoopEvent`], hands it to [`LoopState::step`], and carries out the
//! [`LoopResponse`] that comes back.
use crate::input::{AcceptedInputs, ElementState};
use vstd::prelude::*;

verus! {

/// How the event loop waits for the next event.
#[derive(Clone, Copy, PartialEq, Eq, Structural, Debug)]
pub enum ControlMode {
    /// Run again at once.
    Poll,
    /// Sleep until an event arrives.
    Wait,
}

/// A window event, as far as the loop's decisions read it.
#[derive(Clone, Copy, PartialEq, Eq, Structural, Debug)]
pub enum WindowInput {
    CloseRequested,
    Resized { width: u32, height: u32 },
    /// A key with a known key code, or a mouse button, changed state.
    Button { input: AcceptedInputs, state: ElementState },
    /// A key without a known key code changed state.
    UnidentifiedKey,
    CursorMoved,
    Other,
}

/// An event of the loop.
#[derive(Clone, Copy, PartialEq, Eq, Structural, Debug)]
pub enum LoopEvent {
    Resumed,
    Suspended,
    RedrawRequested,
    /// All pending events were handled.
    AboutToWait,
    /// Any other window event; `consumed_by_ui` tells whether the immediate
    /// mode interface took it for itself.
    Window { input: WindowInput, consumed_by_ui: bool },
    /// Raw relative mouse motion.
    MouseMotion,
    /// A scene's 3D stage finished loading.
    StageLoaded,
    /// An actress finished loading.
    ActressLoaded,
    /// Anything else.
    Ignored,
}

/// What to do with the presentation surface.
#[derive(Clone, Copy, PartialEq, Eq, Structural, Debug)]
pub enum SurfaceAction {
    Keep,
    Create,
    Drop,
    Reconfigure { width: u32, height: u32 },
}

/// What the game does with an event.
#[derive(Clone, Copy, PartialEq, Eq, Structural, Debug)]
pub enum Work {
    Nothing,
    /// Update the frame statistics and the camera, and draw a frame.
    RenderFrame,
    /// Let the current scene handle its input, then ask for a redraw.
    HandleInputAndRequestRedraw,
    /// Shut the workers down and leave the loop.
    Exit,
    /// Resize the interface's render target.
    ResizeUi { width: u32, height: u32 },
    /// Record the new state of an input.
    RecordInput { input: AcceptedInputs, state: ElementState },
    /// Remember the cursor position.
    MoveCursor,
    /// Turn the camera by the mouse motion.
    MoveCamera,
    /// Hand the loaded stage to its scene.
    AttachStage,
    /// Hand the loaded actress to her scene.
    AttachActress,
}

/// What the loop does in answer to one event.
#[derive(Clone, Copy, PartialEq, Eq, Structural, Debug)]
pub struct LoopResponse {
    pub surface: SurfaceAction,
    /// The control mode to switch to, where the event asks for one.
    pub control: Option<ControlMode>,
    pub work: Work,
}

/// The state that the loop keeps between events.
#[derive(Clone, Copy, PartialEq, Eq, Structural, Debug)]
pub struct LoopState {
    /// No frame is drawn while suspended.
    pub suspended: bool,
    /// A presentation surface exists.
    pub has_surface: bool,
    /// The size of the surface, as last configured.
    pub surface_width: u32,
    pub surface_height: u32,
    /// The control mode that the game itself asked for last.
    pub last_user_control: ControlMode,
}

/// The size is empty in one of its dimensions.
pub open spec fn is_empty_size(width: u32, height: u32) -> bool {
    width == 0 || height == 0
}

/// Whether the loop is suspended after the event.
pub open spec fn suspended_after(s: LoopState, e: LoopEvent) -> bool {
    match e {
        LoopEvent::Resumed => false,
        LoopEvent::Suspended => true,
        LoopEvent::Window { input: WindowInput::Resized { .. }, .. } => false,
        _ => s.suspended,
    }
}

/// What the event does to the surface.
pub open spec fn surface_action(s: LoopState, e: LoopEvent) -> SurfaceAction {
    match e {
        LoopEvent::Resumed => if s.has_surface {
            SurfaceAction::Keep
        } else {
            SurfaceAction::Create
        },
        LoopEvent::Suspended => SurfaceAction::Drop,
        LoopEvent::Window { input: WindowInput::Resized { width, height }, .. } => if is_empty_size(
            width,
            height,
        ) {
            SurfaceAction::Keep
        } else {
            SurfaceAction::Reconfigure { width, height }
        },
        _ => SurfaceAction::Keep,
    }
}

/// The event reaches the game: a redraw does not while suspended.
pub open spec fn reaches_game(s: LoopState, e: LoopEvent) -> bool {
    !(e == LoopEvent::RedrawRequested && suspended_after(s, e))
}

/// The game's work for an event that reaches it.
pub open spec fn game_work(e: LoopEvent) -> Work {
    match e {
        LoopEvent::RedrawRequested => Work::RenderFrame,
        LoopEvent::AboutToWait => Work::HandleInputAndRequestRedraw,
        LoopEvent::Window { input, consumed_by_ui } => if consumed_by_ui {
            Work::Nothing
        } else {
            match input {
                WindowInput::CloseRequested => Work::Exit,
                WindowInput::Resized { width, height } => Work::ResizeUi { width, height },
                WindowInput::Button { input, state } => Work::RecordInput { input, state },
                WindowInput::CursorMoved => Work::MoveCursor,
                _ => Work::Nothing,
            }
        },
        LoopEvent::MouseMotion => Work::MoveCamera,
        LoopEvent::StageLoaded => Work::AttachStage,
        LoopEvent::ActressLoaded => Work::AttachActress,
        _ => Work::Nothing,
    }
}

/// The game asks to run again at once after each frame it draws.
pub open spec fn game_control(e: LoopEvent) -> Option<ControlMode> {
    match e {
        LoopEvent::RedrawRequested => Some(ControlMode::Poll),
        _ => None,
    }
}

/// The control mode that the event asks for: waiting while suspended, the
/// game's own choice again once resumed, and the game's choice after a frame.
pub open spec fn requested_control(s: LoopState, e: LoopEvent) -> Option<ControlMode> {
    match e {
        LoopEvent::Suspended => Some(ControlMode::Wait),
        LoopEvent::Resumed => Some(s.last_user_control),
        _ => if reaches_game(s, e) {
            game_control(e)
        } else {
            None
        },
    }
}

/// The answer to an event.
pub open spec fn response(s: LoopState, e: LoopEvent) -> LoopResponse {
    LoopResponse {
        surface: surface_action(s, e),
        control: requested_control(s, e),
        work: if reaches_game(s, e) {
            game_work(e)
        } else {
            Work::Nothing
        },
    }
}

/// The state after an event.
pub open spec fn next_state(s: LoopState, e: LoopEvent) -> LoopState {
    LoopState {
        suspended: suspended_after(s, e),
        has_surface: match e {
            LoopEvent::Resumed => true,
            LoopEvent::Suspended => false,
            _ => s.has_surface,
        },
        surface_width: match surface_action(s, e) {
            SurfaceAction::Reconfigure { width, .. } => width,
            _ => s.surface_width,
        },
        surface_height: match surface_action(s, e) {
            SurfaceAction::Reconfigure { height, .. } => height,
            _ => s.surface_height,
        },
        last_user_control: match (if reaches_game(s, e) {
            game_control(e)
        } else {
            None
        }) {
            Some(c) => c,
            None => s.last_user_control,
        },
    }
}

impl LoopState {
    /// The state when the loop starts: where the platform hands out the
    /// surface only on resuming, the loop starts suspended and without one.
    pub fn new(defers_surface: bool, width: u32, height: u32) -> (s: LoopState)
        ensures
            s.suspended == defers_surface,
            s.has_surface == !defers_surface,
            s.surface_width == width,
            s.surface_height == height,
            s.last_user_control == ControlMode::Poll,
    {
        LoopState {
            suspended: defers_surface,
            has_surface: !defers_surface,
            surface_width: width,
            surface_height: height,
            last_user_control: ControlMode::Poll,
        }
    }

    /// Handles one event: updates the state and says what to do.
    pub fn step(&mut self, e: LoopEvent) -> (r: LoopResponse)
        ensures
            *final(self) == next_state(*old(self), e),
            r == response(*old(self), e),
    {
        let surface = match e {
            LoopEvent::Resumed => if self.has_surface {
                SurfaceAction::Keep
            } else {
                SurfaceAction::Create
            },
            LoopEvent::Suspended => SurfaceAction::Drop,
            LoopEvent::Window { input: WindowInput::Resized { width, height }, .. } => if width == 0
                || height == 0 {
                SurfaceAction::Keep
            } else {
                SurfaceAction::Reconfigure { width, height }
            },
            _ => SurfaceAction::Keep,
        };
        match e {
            LoopEvent::Resumed => {
                self.suspended = false;
                self.has_surface = true;
            },
            LoopEvent::Suspended => {
                self.suspended = true;
                self.has_surface = false;
            },
            LoopEvent::Window { input: WindowInput::Resized { .. }, .. } => {
                self.suspended = false;
            },
            _ => {},
        }
        if let SurfaceAction::Reconfigure { width, height } = surface {
            self.surface_width = width;
            self.surface_height = height;
        }
        let mut control = match e {
            LoopEvent::Suspended => Some(ControlMode::Wait),
            LoopEvent::Resumed => Some(self.last_user_control),
            _ => None,
        };
        if let LoopEvent::RedrawRequested = e {
            if self.suspended {
                return LoopResponse { surface, control, work: Work::Nothing };
            }
        }
        let work = match e {
            LoopEvent::RedrawRequested => {
                control = Some(ControlMode::Poll);
                self.last_user_control = ControlMode::Poll;
                Work::RenderFrame
            },
            LoopEvent::AboutToWait => Work::HandleInputAndRequestRedraw,
            LoopEvent::Window { input, consumed_by_ui } => if consumed_by_ui {
                Work::Nothing
            } else {
                match input {
                    WindowInput::CloseRequested => Work::Exit,
                    WindowInput::Resized { width, height } => Work::ResizeUi { width, height },
                    WindowInput::Button { input, state } => Work::RecordInput { input, state },
                    WindowInput::CursorMoved => Work::MoveCursor,
                    _ => Work::Nothing,
                }
            },
            LoopEvent::MouseMotion => Work::MoveCamera,
            LoopEvent::StageLoaded => Work::AttachStage,
            LoopEvent::ActressLoaded => Work::AttachActress,
            _ => Work::Nothing,
        };
        LoopResponse { surface, control, work }
    }
}

/// Suspending and then resuming leaves the loop running with a surface,
/// asks it to wait while suspended, and gives the game back the control mode
/// it had chosen.
pub proof fn lemma_suspend_then_resume(s: LoopState)
    ensures
        response(s, LoopEvent::Suspended).control == Some(ControlMode::Wait),
        response(s, LoopEvent::Suspended).surface == SurfaceAction::Drop,
        ({
            let s1 = next_state(s, LoopEvent::Suspended);
            let s2 = next_state(s1, LoopEvent::Resumed);
            &&& response(s1, LoopEvent::Resumed).surface == SurfaceAction::Create
            &&& response(s1, LoopEvent::Resumed).control == Some(s.last_user_control)
            &&& !s2.suspended
            &&& s2.has_surface
            &&& s2.last_user_control == s.last_user_control
        }),
{
}

/// While suspended, a redraw draws nothing and changes nothing.
pub proof fn lemma_no_frame_while_suspended(s: LoopState)
    requires
        s.suspended,
    ensures
        response(s, LoopEvent::RedrawRequested) == (LoopResponse {
            surface: SurfaceAction::Keep,
            control: None,
            work: Work::Nothing,
        }),
        next_state(s, LoopEvent::RedrawRequested) == s,
{
}

/// A resize to an empty size leaves the surface alone, and whatever the
/// size, a resize ends a suspension.
pub proof fn lemma_resize_ends_suspension(s: LoopState, width: u32, height: u32, consumed: bool)
    ensures
        ({
            let e = LoopEvent::Window { input: WindowInput::Resized { width, height }, consumed_by_ui: consumed };
            &&& !next_state(s, e).suspended
            &&& is_empty_size(width, height) ==> response(s, e).surface == SurfaceAction::Keep
                && next_state(s, e).surface_width == s.surface_width
                && next_state(s, e).surface_height == s.surface_height
        }),
{
}

/// An event that the interface consumed does no game work.
pub proof fn lemma_consumed_events_do_nothing(s: LoopState, input: WindowInput)
    ensures
        response(s, LoopEvent::Window { input, consumed_by_ui: true }).work == Work::Nothing,
{
}

/// The state after a run of events, in order.
pub open spec fn run_events(s: LoopState, es: Seq<LoopEvent>) -> LoopState
    decreases es.len(),
{
    if es.len() == 0 {
        s
    } else {
        next_state(run_events(s, es.drop_last()), es.last())
    }
}

/// The events that end a suspension: resuming, and a resize.
pub open spec fn ends_suspension(e: LoopEvent) -> bool {
    ||| e is Resumed
    ||| e matches LoopEvent::Window { input: WindowInput::Resized { .. }, .. }
}

/// Once suspended, the loop stays suspended until it resumes or is resized,
/// and no redraw in between draws a frame or touches the control mode.
pub proof fn lemma_suspended_until_resumed(s: LoopState, es: Seq<LoopEvent>)
    requires
        s.suspended,
        forall|i: int| 0 <= i < es.len() ==> !ends_suspension(#[trigger] es[i]),
    ensures
        run_events(s, es).suspended,
        response(run_events(s, es), LoopEvent::RedrawRequested).work == Work::Nothing,
        response(run_events(s, es), LoopEvent::RedrawRequested).control is None,
    decreases es.len(),
{
    if es.len() > 0 {
        assert forall|i: int| 0 <= i < es.drop_last().len() implies !ends_suspension(
            #[trigger] es.drop_last()[i],
        ) by {
            assert(es.drop_last()[i] == es[i]);
        }
        lemma_suspended_until_resumed(s, es.drop_last());
        assert(!ends_suspension(es[es.len() - 1]));
    }
}

/// Each event that reaches the game does its own work: a redraw draws a
/// frame and asks to run again at once, a close request exits, a resize
/// resizes the interface to the new size, a button records that button's
/// new state, and so on; events the interface did not take reach the game.
pub proof fn lemma_events_do_their_work(s: LoopState, width: u32, height: u32, input: AcceptedInputs, state: ElementState)
    ensures
        !s.suspended ==> response(s, LoopEvent::RedrawRequested) == (LoopResponse {
            surface: SurfaceAction::Keep,
            control: Some(ControlMode::Poll),
            work: Work::RenderFrame,
        }),
        response(s, LoopEvent::AboutToWait).work == Work::HandleInputAndRequestRedraw,
        response(s, LoopEvent::Window { input: WindowInput::CloseRequested, consumed_by_ui: false }).work
            == Work::Exit,
        response(
            s,
            LoopEvent::Window { input: WindowInput::Resized { width, height }, consumed_by_ui: false },
        ).work == (Work::ResizeUi { width, height }),
        response(
            s,
            LoopEvent::Window { input: WindowInput::Button { input, state }, consumed_by_ui: false },
        ).work == (Work::RecordInput { input, state }),
        response(s, LoopEvent::Window { input: WindowInput::CursorMoved, consumed_by_ui: false }).work
            == Work::MoveCursor,
        response(s, LoopEvent::MouseMotion).work == Work::MoveCamera,
        response(s, LoopEvent::StageLoaded).work == Work::AttachStage,
        response(s, LoopEvent::ActressLoaded).work == Work::AttachActress,
        response(s, LoopEvent::Ignored).work == Work::Nothing,
{
}

} // verus!
