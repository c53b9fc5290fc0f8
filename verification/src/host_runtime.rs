//! Decisions of the host runtime: its configuration, when its event loop
//! stops, and the host-control console toggled by Ctrl+Space, which
//! collects a command line from key presses while the workspace does not
//! see them.

use vstd::prelude::*;
use crate::input_types::{bits_contain, KeyCode, KeyEvent};
use crate::text::{pop_char, push_char, push_str};

verus! {

/// Where the host takes its input from.
#[derive(Debug, Clone, Copy, PartialEq, Eq, Structural)]
pub enum HostMode {
    /// Simulation: deterministic, scripted input.
    Sim,
    /// Hardware abstraction: real keyboard input.
    Hal,
}

/// Host runtime configuration.
#[derive(Debug, Clone)]
pub struct HostRuntimeConfig {
    /// Where input comes from.
    pub mode: HostMode,
    /// Input script, for simulation.
    pub script: Option<String>,
    /// Steps to run at most; 0 for no limit.
    pub max_steps: usize,
    /// Whether to stop when no component runs.
    pub exit_on_idle: bool,
}

impl Default for HostRuntimeConfig {
    fn default() -> (r: Self)
        ensures
            r.mode == HostMode::Sim,
            r.script is None,
            r.max_steps == 0,
            !r.exit_on_idle,
    {
        HostRuntimeConfig { mode: HostMode::Sim, script: None, max_steps: 0, exit_on_idle: false }
    }
}

/// Whether the event loop stops before a step: on shutdown, when the step
/// limit is reached, when idle and asked to stop then, or when a
/// simulation's script has no input left.
pub open spec fn stops(
    config: HostRuntimeConfig,
    shutdown: bool,
    steps: usize,
    no_components: bool,
    script_left: Option<bool>,
) -> bool {
    ||| shutdown
    ||| (config.max_steps > 0 && steps >= config.max_steps)
    ||| (config.exit_on_idle && no_components)
    ||| (config.mode == HostMode::Sim && script_left == Some(false))
}

/// Whether the event loop stops before a step; `script_left` tells whether
/// a script has input left, and is none without a script.
pub fn should_stop(
    config: &HostRuntimeConfig,
    shutdown: bool,
    steps: usize,
    no_components: bool,
    script_left: Option<bool>,
) -> (r: bool)
    ensures
        r == stops(*config, shutdown, steps, no_components, script_left),
{
    if shutdown {
        return true;
    }
    if config.max_steps > 0 && steps >= config.max_steps {
        return true;
    }
    if config.exit_on_idle && no_components {
        return true;
    }
    match config.mode {
        HostMode::Sim => match script_left {
            Some(left) => !left,
            None => false,
        },
        HostMode::Hal => false,
    }
}

/// The character a key types at the host console: lowercase letters,
/// digits, space, and `:`, `/`, `.`, `,`.
pub open spec fn key_char(code: KeyCode) -> Option<char> {
    match code {
        KeyCode::A => Some('a'),
        KeyCode::B => Some('b'),
        KeyCode::C => Some('c'),
        KeyCode::D => Some('d'),
        KeyCode::E => Some('e'),
        KeyCode::F => Some('f'),
        KeyCode::G => Some('g'),
        KeyCode::H => Some('h'),
        KeyCode::I => Some('i'),
        KeyCode::J => Some('j'),
        KeyCode::K => Some('k'),
        KeyCode::L => Some('l'),
        KeyCode::M => Some('m'),
        KeyCode::N => Some('n'),
        KeyCode::O => Some('o'),
        KeyCode::P => Some('p'),
        KeyCode::Q => Some('q'),
        KeyCode::R => Some('r'),
        KeyCode::S => Some('s'),
        KeyCode::T => Some('t'),
        KeyCode::U => Some('u'),
        KeyCode::V => Some('v'),
        KeyCode::W => Some('w'),
        KeyCode::X => Some('x'),
        KeyCode::Y => Some('y'),
        KeyCode::Z => Some('z'),
        KeyCode::Num0 => Some('0'),
        KeyCode::Num1 => Some('1'),
        KeyCode::Num2 => Some('2'),
        KeyCode::Num3 => Some('3'),
        KeyCode::Num4 => Some('4'),
        KeyCode::Num5 => Some('5'),
        KeyCode::Num6 => Some('6'),
        KeyCode::Num7 => Some('7'),
        KeyCode::Num8 => Some('8'),
        KeyCode::Num9 => Some('9'),
        KeyCode::Space => Some(' '),
        KeyCode::Semicolon => Some(':'),
        KeyCode::Slash => Some('/'),
        KeyCode::Period => Some('.'),
        KeyCode::Comma => Some(','),
        _ => None,
    }
}

/// The character a key types at the host console, if any.
pub fn keycode_to_char(code: KeyCode) -> (r: Option<char>)
    ensures
        r == key_char(code),
{
    match code {
        KeyCode::A => Some('a'),
        KeyCode::B => Some('b'),
        KeyCode::C => Some('c'),
        KeyCode::D => Some('d'),
        KeyCode::E => Some('e'),
        KeyCode::F => Some('f'),
        KeyCode::G => Some('g'),
        KeyCode::H => Some('h'),
        KeyCode::I => Some('i'),
        KeyCode::J => Some('j'),
        KeyCode::K => Some('k'),
        KeyCode::L => Some('l'),
        KeyCode::M => Some('m'),
        KeyCode::N => Some('n'),
        KeyCode::O => Some('o'),
        KeyCode::P => Some('p'),
        KeyCode::Q => Some('q'),
        KeyCode::R => Some('r'),
        KeyCode::S => Some('s'),
        KeyCode::T => Some('t'),
        KeyCode::U => Some('u'),
        KeyCode::V => Some('v'),
        KeyCode::W => Some('w'),
        KeyCode::X => Some('x'),
        KeyCode::Y => Some('y'),
        KeyCode::Z => Some('z'),
        KeyCode::Num0 => Some('0'),
        KeyCode::Num1 => Some('1'),
        KeyCode::Num2 => Some('2'),
        KeyCode::Num3 => Some('3'),
        KeyCode::Num4 => Some('4'),
        KeyCode::Num5 => Some('5'),
        KeyCode::Num6 => Some('6'),
        KeyCode::Num7 => Some('7'),
        KeyCode::Num8 => Some('8'),
        KeyCode::Num9 => Some('9'),
        KeyCode::Space => Some(' '),
        KeyCode::Semicolon => Some(':'),
        KeyCode::Slash => Some('/'),
        KeyCode::Period => Some('.'),
        KeyCode::Comma => Some(','),
        _ => None,
    }
}

/// Whether a key is the host-control hotkey, Ctrl+Space.
pub fn is_host_control_hotkey(key: &KeyEvent) -> (r: bool)
    ensures
        r == (key.code == KeyCode::Space && bits_contain(key.modifiers@, 1)),
{
    key.code == KeyCode::Space && key.modifiers.is_ctrl()
}

/// The state of the host.
#[derive(Debug, Clone, Copy, PartialEq, Eq, Structural)]
pub enum HostState {
    /// Input goes to the workspace.
    Running,
    /// Input goes to the host console.
    HostControl,
    /// The host is stopping.
    Shutdown,
}

/// What to do with a key.
#[derive(Debug, Clone, PartialEq, Eq)]
pub enum HostInputAction {
    /// Hand the key to the workspace.
    RouteToWorkspace,
    /// Run this host command line.
    Execute(String),
    /// Nothing more.
    Consumed,
}

/// The host console: its state and the command line being typed.
pub struct HostConsole {
    state: HostState,
    command_buffer: String,
}

impl HostConsole {
    /// The host's state.
    pub closed spec fn state_view(&self) -> HostState {
        self.state
    }

    /// The command line typed so far.
    pub closed spec fn buffer_view(&self) -> Seq<char> {
        self.command_buffer@
    }

    /// A running host with an empty command line.
    pub fn new() -> (r: Self)
        ensures
            r.state_view() == HostState::Running,
            r.buffer_view().len() == 0,
    {
        HostConsole { state: HostState::Running, command_buffer: String::new() }
    }

    /// The host's state.
    pub fn state(&self) -> (r: HostState)
        ensures
            r == self.state_view(),
    {
        self.state
    }

    /// The command line typed so far.
    pub fn command_text(&self) -> (r: &str)
        ensures
            r@ == self.buffer_view(),
    {
        self.command_buffer.as_str()
    }

    /// Enters host control with an empty command line, or goes back to
    /// running; a stopping host stays stopping.
    pub fn toggle_host_control(&mut self)
        ensures
            old(self).state_view() == HostState::Running ==> final(self).state_view() == HostState::HostControl
                && final(self).buffer_view().len() == 0,
            old(self).state_view() == HostState::HostControl ==> final(self).state_view() == HostState::Running
                && final(self).buffer_view() == old(self).buffer_view(),
            old(self).state_view() == HostState::Shutdown ==> final(self).state_view() == HostState::Shutdown
                && final(self).buffer_view() == old(self).buffer_view(),
    {
        match self.state {
            HostState::Running => {
                self.command_buffer = String::new();
                self.state = HostState::HostControl;
            },
            HostState::HostControl => {
                self.state = HostState::Running;
            },
            HostState::Shutdown => {},
        }
    }

    /// Marks the host as stopping.
    pub fn shutdown(&mut self)
        ensures
            final(self).state_view() == HostState::Shutdown,
            final(self).buffer_view() == old(self).buffer_view(),
    {
        self.state = HostState::Shutdown;
    }

    /// Handles a key: a running host hands it to the workspace; in host
    /// control, Enter runs the command line and goes back to running,
    /// Escape drops it and goes back to running, Backspace removes its
    /// last character, and any other key appends its text, or the
    /// character it types; a stopping host ignores it.
    pub fn handle_input(&mut self, key: &KeyEvent) -> (r: HostInputAction)
        ensures
            old(self).state_view() == HostState::Running ==> r == HostInputAction::RouteToWorkspace
                && *final(self) == *old(self),
            old(self).state_view() == HostState::Shutdown ==> r == HostInputAction::Consumed && *final(self)
                == *old(self),
            old(self).state_view() == HostState::HostControl ==> (if key.code == KeyCode::Enter {
                &&& r matches HostInputAction::Execute(t) && t@ == old(self).buffer_view()
                &&& final(self).state_view() == HostState::Running
                &&& final(self).buffer_view().len() == 0
            } else if key.code == KeyCode::Escape {
                &&& r == HostInputAction::Consumed
                &&& final(self).state_view() == HostState::Running
                &&& final(self).buffer_view().len() == 0
            } else {
                &&& r == HostInputAction::Consumed
                &&& final(self).state_view() == HostState::HostControl
                &&& final(self).buffer_view() == if key.code == KeyCode::Backspace {
                    if old(self).buffer_view().len() > 0 {
                        old(self).buffer_view().drop_last()
                    } else {
                        old(self).buffer_view()
                    }
                } else {
                    match key.text {
                        Some(t) => old(self).buffer_view() + t@,
                        None => match key_char(key.code) {
                            Some(c) => old(self).buffer_view().push(c),
                            None => old(self).buffer_view(),
                        },
                    }
                }
            }),
    {
        match self.state {
            HostState::Running => HostInputAction::RouteToWorkspace,
            HostState::Shutdown => HostInputAction::Consumed,
            HostState::HostControl => {
                if key.code == KeyCode::Enter {
                    let mut command = String::new();
                    core::mem::swap(&mut command, &mut self.command_buffer);
                    self.state = HostState::Running;
                    HostInputAction::Execute(command)
                } else if key.code == KeyCode::Escape {
                    self.command_buffer = String::new();
                    self.state = HostState::Running;
                    HostInputAction::Consumed
                } else if key.code == KeyCode::Backspace {
                    pop_char(&mut self.command_buffer);
                    HostInputAction::Consumed
                } else {
                    match &key.text {
                        Some(t) => push_str(&mut self.command_buffer, t.as_str()),
                        None => match keycode_to_char(key.code) {
                            Some(c) => push_char(&mut self.command_buffer, c),
                            None => {},
                        },
                    }
                    HostInputAction::Consumed
                }
            },
        }
    }
}

} // verus!
