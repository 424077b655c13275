//! The decisions of the animation loop. The loop itself draws a frame,
//! shows it, waits and polls the keyboard; what it does with the key it got
//! is decided here.

use vstd::prelude::*;
use crate::camera::{initial_camera, turned, zoomed_in, zoomed_out, Camera};

verus! {

/// The key that zooms in.
pub const ZOOM_IN_KEY: char = '=';

/// The key that zooms out.
pub const ZOOM_OUT_KEY: char = '-';

/// The key that ends the animation.
pub const QUIT_KEY: char = 'q';

/// The pause after each frame, in milliseconds.
pub const FRAME_PAUSE_MILLIS: u64 = 20;

/// The longest wait for a key after each frame, in milliseconds.
pub const POLL_TIMEOUT_MILLIS: u64 = 1;

/// What the input of one iteration asks for.
#[derive(Clone, Copy, Debug, PartialEq, Eq, Structural)]
pub enum Command {
    ZoomIn,
    ZoomOut,
    Quit,
    /// No key within the timeout, or an input that means nothing here.
    Ignore,
}

/// Whether the loop goes on.
#[derive(Clone, Copy, Debug, PartialEq, Eq, Structural)]
pub enum Status {
    Running,
    Stopped,
}

/// The state of the animation loop.
#[derive(Clone, Copy, Debug, PartialEq, Eq, Structural)]
pub struct Animation {
    pub camera: Camera,
    pub status: Status,
}

/// The command that a polled key stands for. `None` is a poll that brought
/// no character key.
pub open spec fn command_of(key: Option<char>) -> Command {
    if key == Some(ZOOM_IN_KEY) {
        Command::ZoomIn
    } else if key == Some(ZOOM_OUT_KEY) {
        Command::ZoomOut
    } else if key == Some(QUIT_KEY) {
        Command::Quit
    } else {
        Command::Ignore
    }
}

/// The camera after a command.
pub open spec fn commanded(camera: Camera, command: Command) -> Camera {
    match command {
        Command::ZoomIn => zoomed_in(camera),
        Command::ZoomOut => zoomed_out(camera),
        Command::Quit => camera,
        Command::Ignore => camera,
    }
}

/// The state after the iteration that ends with `command`. A running loop
/// advances the angle, then obeys the command; a stopped one stays as it
/// is.
pub open spec fn after(state: Animation, command: Command) -> Animation {
    match state.status {
        Status::Stopped => state,
        Status::Running => Animation {
            camera: commanded(turned(state.camera), command),
            status: if command == Command::Quit {
                Status::Stopped
            } else {
                Status::Running
            },
        },
    }
}

/// The command that a polled key stands for.
pub fn interpret(key: Option<char>) -> (command: Command)
    ensures
        command == command_of(key),
{
    match key {
        Some(c) => {
            if c == ZOOM_IN_KEY {
                Command::ZoomIn
            } else if c == ZOOM_OUT_KEY {
                Command::ZoomOut
            } else if c == QUIT_KEY {
                Command::Quit
            } else {
                Command::Ignore
            }
        },
        None => Command::Ignore,
    }
}

impl Animation {
    /// A running loop with the camera of the first frame.
    pub fn new() -> (state: Animation)
        ensures
            state == (Animation { camera: initial_camera(), status: Status::Running }),
    {
        Animation { camera: Camera::new(), status: Status::Running }
    }

    /// Whether the loop goes on.
    pub fn is_running(&self) -> (running: bool)
        ensures
            running == (self.status == Status::Running),
    {
        match self.status {
            Status::Running => true,
            Status::Stopped => false,
        }
    }

    /// Ends one iteration: advances the angle and obeys `command`.
    pub fn step(&mut self, command: Command)
        ensures
            *final(self) == after(*old(self), command),
    {
        match self.status {
            Status::Stopped => {},
            Status::Running => {
                self.camera.turn();
                match command {
                    Command::ZoomIn => {
                        self.camera.zoom_in();
                    },
                    Command::ZoomOut => {
                        self.camera.zoom_out();
                    },
                    Command::Quit => {
                        self.status = Status::Stopped;
                    },
                    Command::Ignore => {},
                }
            },
        }
    }
}

/// Only three keys mean anything: every other input is ignored.
pub proof fn law_other_keys_are_ignored(key: Option<char>)
    requires
        key != Some(ZOOM_IN_KEY),
        key != Some(ZOOM_OUT_KEY),
        key != Some(QUIT_KEY),
    ensures
        command_of(key) == Command::Ignore,
{
}

/// A stopped loop stays stopped and keeps its camera, whatever comes.
pub proof fn law_stopped_is_final(state: Animation, command: Command)
    requires
        state.status == Status::Stopped,
    ensures
        after(state, command) == state,
{
}

/// A running loop stops on the quit command and on nothing else.
pub proof fn law_only_quit_stops(state: Animation, command: Command)
    requires
        state.status == Status::Running,
    ensures
        after(state, command).status == Status::Stopped <==> command == Command::Quit,
{
}

/// An ignored input and the quit command leave the field of view and the
/// viewer distance alone, and every iteration of a running loop advances
/// the angle by one increment until the counter is full.
pub proof fn law_iteration_advances_angle(state: Animation, command: Command)
    requires
        state.status == Status::Running,
    ensures
        after(state, command).camera.angle_steps == turned(state.camera).angle_steps,
        command == Command::Ignore || command == Command::Quit ==> {
            &&& after(state, command).camera.fov == state.camera.fov
            &&& after(state, command).camera.viewer_distance == state.camera.viewer_distance
        },
{
}

} // verus!
