use crate::events::spec_num_params;
use crate::events::spec_send;
use crate::events::EventEmitter;
use crate::events::EventHandler;
use crate::events::ParamView;
use crate::events::Signal;
use crate::events::SignalView;
use vstd::prelude::*;

verus! {

/// The kinds of the events that a screen publishes.
pub const EVENT_WINDOW_CLOSED: &'static str = "WindowClosed";

pub const EVENT_MOUSE_DOWN: &'static str = "OnMouseDown";

pub const EVENT_MOUSE_UP: &'static str = "OnMouseUp";

pub const EVENT_MOUSE_MOVE: &'static str = "OnMouseMove";

pub const EVENT_KEY_DOWN: &'static str = "OnKeyDown";

pub const EVENT_KEY_UP: &'static str = "OnKeyUp";

/// A width and a height.
#[derive(Debug, Clone, Copy, PartialEq, Eq)]
pub struct Size {
    pub width: u32,
    pub height: u32,
}

/// The size of a screen: its grid in cells, its window in pixels, and the
/// font size that relates the two. A cell is half a font size wide and one
/// font size high.
#[derive(Debug, Clone, Copy, PartialEq, Eq)]
pub struct ScreenSize {
    pub grid_width: u32,
    pub grid_height: u32,
    pub window_width: u32,
    pub window_height: u32,
    pub font_size: u32,
}

/// The width in pixels of a window that shows `width` cells in a row.
pub open spec fn spec_window_width(width: u32, font_size: u32) -> int {
    (width * font_size) / 2
}

/// The height in pixels of a window that shows `height` rows.
pub open spec fn spec_window_height(height: u32, font_size: u32) -> int {
    height * font_size
}

impl ScreenSize {
    /// The size of a screen of `width` by `height` cells.
    pub fn from_grid(width: u32, height: u32, font_size: u32) -> (size: Self)
        requires
            width * font_size <= u32::MAX,
            height * font_size <= u32::MAX,
        ensures
            size.grid_width == width,
            size.grid_height == height,
            size.font_size == font_size,
            size.window_width == spec_window_width(width, font_size),
            size.window_height == spec_window_height(height, font_size),
    {
        ScreenSize {
            grid_width: width,
            grid_height: height,
            window_width: width * font_size / 2,
            window_height: height * font_size,
            font_size,
        }
    }

    /// The size of one cell in pixels.
    pub fn cell_size(&self) -> (cell: Size)
        ensures
            cell.width == self.font_size / 2,
            cell.height == self.font_size,
    {
        Size { width: self.font_size / 2, height: self.font_size }
    }

    /// Changes the grid to `width` by `height` cells at the same font size.
    pub fn resize_grid(&mut self, width: u32, height: u32)
        requires
            width * old(self).font_size <= u32::MAX,
            height * old(self).font_size <= u32::MAX,
        ensures
            final(self).grid_width == width,
            final(self).grid_height == height,
            final(self).font_size == old(self).font_size,
            final(self).window_width == spec_window_width(width, old(self).font_size),
            final(self).window_height == spec_window_height(height, old(self).font_size),
    {
        self.grid_width = width;
        self.grid_height = height;
        self.window_width = width * self.font_size / 2;
        self.window_height = height * self.font_size;
    }
}

/// A mouse button.
#[derive(Debug, Clone, Copy, PartialEq, Eq)]
pub enum MouseButton {
    Left,
    Right,
    Middle,
    Other(u16),
}

/// The number a mouse button is reported as: 0, 1 and 2 for the left, the
/// right and the middle one, and its own number for any other.
pub open spec fn spec_mouse_button(button: MouseButton) -> i64 {
    match button {
        MouseButton::Left => 0,
        MouseButton::Right => 1,
        MouseButton::Middle => 2,
        MouseButton::Other(n) => n as i64,
    }
}

/// The number a mouse button is reported as.
pub fn mouse_button_to_int(button: &MouseButton) -> (n: i64)
    ensures
        n == spec_mouse_button(*button),
{
    match button {
        MouseButton::Left => 0,
        MouseButton::Right => 1,
        MouseButton::Middle => 2,
        MouseButton::Other(n) => *n as i64,
    }
}

/// What a window reports, as plain values. The cursor comes as the cell it
/// is over.
#[derive(Debug, Clone, Copy, PartialEq, Eq)]
pub enum WindowInput {
    MousePressed(MouseButton),
    MouseReleased(MouseButton),
    CursorMoved { x: i32, y: i32 },
    Key { pressed: bool, scancode: i32, keycode: Option<i32> },
    ModifiersChanged { ctrl: bool, shift: bool, alt: bool, logo: bool },
    CloseRequested,
    Other,
}

/// The modifier keys as one number: 4 for control, 8 for shift, 16 for alt
/// and 32 for the logo key, added up.
pub open spec fn spec_modifier_bits(ctrl: bool, shift: bool, alt: bool, logo: bool) -> i32 {
    ((if ctrl { 4int } else { 0 }) + (if shift { 8int } else { 0 }) + (if alt { 16int } else { 0 })
        + (if logo { 32int } else { 0 })) as i32
}

/// What an [`InputHelper`] stands for in contracts.
pub struct InputView {
    pub emitter: Option<EventEmitter>,
    pub width: u32,
    pub height: u32,
    pub mouse_x: i32,
    pub mouse_y: i32,
    pub modifiers: i32,
    pub close: bool,
}

impl InputView {
    /// The numbers an input is reported with, where it is reported: the
    /// kind of the event and its arguments.
    pub open spec fn report(self, input: WindowInput) -> Option<(Seq<char>, Seq<i64>)> {
        match input {
            WindowInput::MousePressed(button) => Some(
                (
                    EVENT_MOUSE_DOWN@,
                    seq![self.mouse_x as i64, self.mouse_y as i64, spec_mouse_button(button)],
                ),
            ),
            WindowInput::MouseReleased(button) => Some(
                (
                    EVENT_MOUSE_UP@,
                    seq![self.mouse_x as i64, self.mouse_y as i64, spec_mouse_button(button)],
                ),
            ),
            WindowInput::CursorMoved { x, y } => if x == self.mouse_x && y == self.mouse_y {
                None
            } else {
                Some((EVENT_MOUSE_MOVE@, seq![x as i64, y as i64]))
            },
            WindowInput::Key { pressed, scancode, keycode } => Some(
                (
                    if pressed {
                        EVENT_KEY_DOWN@
                    } else {
                        EVENT_KEY_UP@
                    },
                    seq![
                        scancode as i64,
                        match keycode {
                            Some(k) => k as i64,
                            None => 0i64,
                        },
                        self.modifiers as i64,
                    ],
                ),
            ),
            WindowInput::CloseRequested => Some((EVENT_WINDOW_CLOSED@, Seq::<i64>::empty())),
            _ => None,
        }
    }

    /// The arguments an input is reported with, where it is reported.
    pub open spec fn numbers(self, input: WindowInput) -> Seq<i64> {
        match self.report(input) {
            Some((_, numbers)) => numbers,
            None => Seq::<i64>::empty(),
        }
    }

    /// The event an input is published as, if it is published: nothing is
    /// without an emitter.
    pub open spec fn signal(self, input: WindowInput) -> Option<SignalView> {
        match (self.emitter, self.report(input)) {
            (Some(emitter), Some((kind, numbers))) => Some(
                SignalView {
                    kind: Some(kind),
                    origin: emitter.spec_owner()@,
                    args: spec_num_params(numbers),
                },
            ),
            _ => None,
        }
    }

    /// The helper after an input: it remembers where the cursor is, which
    /// modifier keys are down and whether the window is to close. Without an
    /// emitter inputs are not looked at.
    pub open spec fn after(self, input: WindowInput) -> InputView {
        if self.emitter is None {
            self
        } else {
            match input {
                WindowInput::CursorMoved { x, y } => InputView { mouse_x: x, mouse_y: y, ..self },
                WindowInput::ModifiersChanged { ctrl, shift, alt, logo } => InputView {
                    modifiers: spec_modifier_bits(ctrl, shift, alt, logo),
                    ..self
                },
                WindowInput::CloseRequested => InputView { close: true, ..self },
                _ => self,
            }
        }
    }
}

/// Turns what a window reports into events on the bus.
pub struct InputHelper {
    emitter: Option<EventEmitter>,
    width: u32,
    height: u32,
    mouseX: i32,
    mouseY: i32,
    modifiers: i32,
    close: bool,
}

impl View for InputHelper {
    type V = InputView;

    closed spec fn view(&self) -> InputView {
        InputView {
            emitter: self.emitter,
            width: self.width,
            height: self.height,
            mouse_x: self.mouseX,
            mouse_y: self.mouseY,
            modifiers: self.modifiers,
            close: self.close,
        }
    }
}

impl InputHelper {
    /// A helper for a grid of `width` by `height` cells that publishes
    /// through `emitter`. The cursor begins in the first cell, no modifier
    /// key is down and the window is not asked to close.
    pub fn new(emitter: Option<EventEmitter>, width: u32, height: u32) -> (helper: Self)
        ensures
            helper@ == (InputView {
                emitter,
                width,
                height,
                mouse_x: 0,
                mouse_y: 0,
                modifiers: 0,
                close: false,
            }),
    {
        InputHelper { emitter, width, height, mouseX: 0, mouseY: 0, modifiers: 0, close: false }
    }

    /// Notes the new size of the grid.
    pub fn resize(&mut self, width: u32, height: u32)
        ensures
            final(self)@ == (InputView { width, height, ..old(self)@ }),
    {
        self.width = width;
        self.height = height;
    }

    /// Whether the window was asked to close.
    pub fn closeRequested(&self) -> (close: bool)
        ensures
            close == self@.close,
    {
        self.close
    }

    /// Takes one input: publishes the event that stands for it, if there is
    /// one, and remembers what later events need.
    pub fn update(&mut self, bus: &mut EventHandler, event: &WindowInput)
        ensures
            final(self)@ == old(self)@.after(*event),
            final(bus).spec_is_open() == old(bus).spec_is_open(),
            final(bus)@ == match old(self)@.signal(*event) {
                Some(signal) => if old(bus).spec_is_open() {
                    spec_send(old(bus)@, signal)
                } else {
                    old(bus)@
                },
                None => old(bus)@,
            },
    {
        let mut emitter = match self.emitter {
            Some(emitter) => emitter,
            None => {
                return ;
            },
        };
        let owner = emitter.owner();
        match *event {
            WindowInput::MousePressed(button) => {
                let numbers = vec![self.mouseX as i64, self.mouseY as i64, mouse_button_to_int(&button)];
                assert(numbers@ =~= old(self)@.numbers(*event));
                emitter.send(bus, Signal::numArgs(EVENT_MOUSE_DOWN, owner, numbers));
            },
            WindowInput::MouseReleased(button) => {
                let numbers = vec![self.mouseX as i64, self.mouseY as i64, mouse_button_to_int(&button)];
                assert(numbers@ =~= old(self)@.numbers(*event));
                emitter.send(bus, Signal::numArgs(EVENT_MOUSE_UP, owner, numbers));
            },
            WindowInput::CursorMoved { x, y } => {
                if x == self.mouseX && y == self.mouseY {
                    return ;
                }
                self.mouseX = x;
                self.mouseY = y;
                let numbers = vec![x as i64, y as i64];
                assert(numbers@ =~= old(self)@.numbers(*event));
                emitter.send(bus, Signal::numArgs(EVENT_MOUSE_MOVE, owner, numbers));
            },
            WindowInput::Key { pressed, scancode, keycode } => {
                let kind = if pressed {
                    EVENT_KEY_DOWN
                } else {
                    EVENT_KEY_UP
                };
                let key: i64 = match keycode {
                    Some(k) => k as i64,
                    None => 0,
                };
                let numbers = vec![scancode as i64, key, self.modifiers as i64];
                assert(numbers@ =~= old(self)@.numbers(*event));
                emitter.send(bus, Signal::numArgs(kind, owner, numbers));
            },
            WindowInput::ModifiersChanged { ctrl, shift, alt, logo } => {
                let mut bits: i32 = 0;
                if ctrl {
                    bits = bits + 4;
                }
                if shift {
                    bits = bits + 8;
                }
                if alt {
                    bits = bits + 16;
                }
                if logo {
                    bits = bits + 32;
                }
                self.modifiers = bits;
            },
            WindowInput::CloseRequested => {
                self.close = true;
                let signal = Signal::noArgs(EVENT_WINDOW_CLOSED, owner);
                assert(signal@.args =~= spec_num_params(Seq::<i64>::empty()));
                emitter.send(bus, signal);
            },
            WindowInput::Other => {},
        }
    }
}

} // verus!
