use canvas_harness::canvas::Surface;
use canvas_harness::driver::{Action, Canvas};

#[test]
fn run_registers_handlers_then_schedules() {
    let mut c = Canvas::new(Surface::new());
    let actions = c.run();
    assert_eq!(
        actions,
        vec![
            Action::RegisterKeyDownHandler,
            Action::RegisterKeyUpHandler,
            Action::ScheduleNextTick,
        ]
    );
}

#[test]
fn tick_draws_then_blits_then_reschedules() {
    let mut c = Canvas::new(Surface::new());
    c.run();
    let actions = c.on_tick();
    assert_eq!(
        actions,
        vec![Action::InvokeDraw, Action::BlitToDisplay, Action::ScheduleNextTick]
    );
}

#[test]
fn key_down_invokes_callback_once_with_uppercased_key() {
    let mut c = Canvas::new(Surface::new());
    c.run();
    let actions = c.on_key_down("a");
    assert_eq!(actions.len(), 1);
    assert_eq!(actions[0], Action::InvokeKeyDown(String::from("A")));
}

#[test]
fn key_down_normalizes_named_keys() {
    let mut c = Canvas::new(Surface::new());
    c.run();
    let actions = c.on_key_down("ArrowUp");
    assert_eq!(actions, vec![Action::InvokeKeyDown(String::from("ARROWUP"))]);
    let actions = c.on_key_down("B");
    assert_eq!(actions, vec![Action::InvokeKeyDown(String::from("B"))]);
}

#[test]
fn key_up_invokes_callback_once_with_uppercased_key() {
    let mut c = Canvas::new(Surface::new());
    c.run();
    let actions = c.on_key_up("q");
    assert_eq!(actions, vec![Action::InvokeKeyUp(String::from("Q"))]);
}

#[test]
fn displayed_buffer_steady_over_three_ticks() {
    let mut c = Canvas::new(Surface::new());
    c.run();
    // With no draw-callback mutation, the buffer the blit would copy to the
    // display is the same frame on every tick.
    let mut displayed: Vec<Vec<u8>> = Vec::new();
    for _ in 0..3 {
        let actions = c.on_tick();
        assert_eq!(
            actions,
            vec![Action::InvokeDraw, Action::BlitToDisplay, Action::ScheduleNextTick]
        );
        displayed.push(c.surface.read_buffer().unwrap());
    }
    assert_eq!(displayed[0], displayed[1]);
    assert_eq!(displayed[1], displayed[2]);
}
