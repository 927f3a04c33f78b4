use component_bus::component::UID;
use component_bus::events::EventHandler;
use component_bus::events::PollMode;
use component_bus::events::PollOutcome;
use component_bus::events::Signal;
use component_bus::screens::mouse_button_to_int;
use component_bus::screens::InputHelper;
use component_bus::screens::MouseButton;
use component_bus::screens::ScreenSize;
use component_bus::screens::Size;
use component_bus::screens::WindowInput;

const OWNER: UID = *b"0123456789ABCDEF";

fn helper() -> (EventHandler, InputHelper) {
    let bus = EventHandler::new();
    let input = InputHelper::new(Some(bus.new_emitter(OWNER)), 80, 25);
    (bus, input)
}

fn next(bus: &mut EventHandler) -> Signal {
    match bus.poll(PollMode::NonBlocking, 0) {
        PollOutcome::Ready(signal) => signal,
        PollOutcome::Wait(_) => panic!("the poll asked to wait"),
    }
}

#[test]
fn screen_size_from_grid() {
    let size = ScreenSize::from_grid(80, 25, 16);
    assert_eq!(size.grid_width, 80);
    assert_eq!(size.grid_height, 25);
    assert_eq!(size.window_width, 640);
    assert_eq!(size.window_height, 400);
    assert_eq!(size.font_size, 16);
    assert_eq!(size.cell_size(), Size { width: 8, height: 16 });
}

#[test]
fn screen_size_rounds_odd_widths_down() {
    let size = ScreenSize::from_grid(3, 1, 5);
    assert_eq!(size.window_width, 7);
    assert_eq!(size.window_height, 5);
    assert_eq!(size.cell_size(), Size { width: 2, height: 5 });
}

#[test]
fn screen_size_resize_grid() {
    let mut size = ScreenSize::from_grid(80, 25, 16);
    size.resize_grid(10, 4);
    assert_eq!(size, ScreenSize {
        grid_width: 10,
        grid_height: 4,
        window_width: 80,
        window_height: 64,
        font_size: 16,
    });
}

#[test]
fn mouse_buttons_have_their_numbers() {
    assert_eq!(mouse_button_to_int(&MouseButton::Left), 0);
    assert_eq!(mouse_button_to_int(&MouseButton::Right), 1);
    assert_eq!(mouse_button_to_int(&MouseButton::Middle), 2);
    assert_eq!(mouse_button_to_int(&MouseButton::Other(9)), 9);
}

#[test]
fn mouse_events_carry_cursor_and_button() {
    let (mut bus, mut input) = helper();
    input.update(&mut bus, &WindowInput::CursorMoved { x: 3, y: 4 });
    assert_eq!(next(&mut bus), Signal::numArgs("OnMouseMove", OWNER, vec![3, 4]));
    input.update(&mut bus, &WindowInput::CursorMoved { x: 3, y: 4 });
    assert_eq!(bus.len(), 0);
    input.update(&mut bus, &WindowInput::MousePressed(MouseButton::Right));
    assert_eq!(next(&mut bus), Signal::numArgs("OnMouseDown", OWNER, vec![3, 4, 1]));
    input.update(&mut bus, &WindowInput::MouseReleased(MouseButton::Other(5)));
    assert_eq!(next(&mut bus), Signal::numArgs("OnMouseUp", OWNER, vec![3, 4, 5]));
}

#[test]
fn key_events_carry_modifiers() {
    let (mut bus, mut input) = helper();
    input.update(&mut bus, &WindowInput::Key { pressed: true, scancode: 30, keycode: Some(10) });
    assert_eq!(next(&mut bus), Signal::numArgs("OnKeyDown", OWNER, vec![30, 10, 0]));
    input.update(
        &mut bus,
        &WindowInput::ModifiersChanged { ctrl: true, shift: false, alt: true, logo: false },
    );
    assert_eq!(bus.len(), 0);
    input.update(&mut bus, &WindowInput::Key { pressed: false, scancode: 30, keycode: None });
    assert_eq!(next(&mut bus), Signal::numArgs("OnKeyUp", OWNER, vec![30, 0, 20]));
    input.update(
        &mut bus,
        &WindowInput::ModifiersChanged { ctrl: true, shift: true, alt: true, logo: true },
    );
    input.update(&mut bus, &WindowInput::Key { pressed: true, scancode: -1, keycode: Some(1) });
    assert_eq!(next(&mut bus), Signal::numArgs("OnKeyDown", OWNER, vec![-1, 1, 60]));
}

#[test]
fn close_request_is_remembered_and_published() {
    let (mut bus, mut input) = helper();
    assert!(!input.closeRequested());
    input.update(&mut bus, &WindowInput::Other);
    assert_eq!(bus.len(), 0);
    input.update(&mut bus, &WindowInput::CloseRequested);
    assert!(input.closeRequested());
    assert_eq!(next(&mut bus), Signal::noArgs("WindowClosed", OWNER));
}

#[test]
fn helper_without_emitter_ignores_input() {
    let mut bus = EventHandler::new();
    let mut input = InputHelper::new(None, 80, 25);
    input.resize(100, 30);
    input.update(&mut bus, &WindowInput::CloseRequested);
    input.update(&mut bus, &WindowInput::MousePressed(MouseButton::Left));
    assert!(!input.closeRequested());
    assert_eq!(bus.len(), 0);
}
