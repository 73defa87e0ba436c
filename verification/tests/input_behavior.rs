use genesis::input::{Action, Button, Input};

const KEY_W: Button = Button::Key(87);
const KEY_S: Button = Button::Key(83);

fn all_false(a: Action) -> bool {
    !a.is_down && !a.just_down && !a.just_up
}

#[test]
fn new_input_is_empty() {
    let input = Input::new();
    assert!(all_false(input.get_action("anything")));
    let d = input.get_mouse_delta();
    assert_eq!(d.x, 0.0);
    assert_eq!(d.y, 0.0);
}

#[test]
fn unbound_button_leaves_actions_unchanged() {
    let mut input = Input::new();
    input.register_action("jump");
    input.bind_button(Button::Key(32), "jump");
    input.update_button(Button::Key(32), true);

    // A button that was never bound must change nothing.
    input.update_button(Button::Key(99), true);
    input.update_button(Button::Mouse(0), false);

    let a = input.get_action("jump");
    assert!(a.is_down);
    assert!(a.just_down);
    assert!(!a.just_up);
}

#[test]
fn repeated_down_updates_raise_one_edge() {
    let mut input = Input::new();
    input.register_action("fire");

    input.update_action("fire", true);
    let first = input.get_action("fire");
    assert!(first.is_down);
    assert!(first.just_down);
    assert!(!first.just_up);

    // A repeated press is a no-op: the same edge, no new one.
    input.update_action("fire", true);
    let second = input.get_action("fire");
    assert!(second.is_down);
    assert!(second.just_down);
    assert!(!second.just_up);

    // After the per-tick reset, further repeats stay edge-free.
    input.update();
    input.update_action("fire", true);
    let third = input.get_action("fire");
    assert!(third.is_down);
    assert!(!third.just_down);
    assert!(!third.just_up);
}

#[test]
fn update_clears_edges_and_delta() {
    let mut input = Input::new();
    input.register_action("left");
    input.register_action("right");
    input.update_action("left", true);
    input.update_mouse_delta(glam::Vec2::new(3.5, -2.0));

    input.update();

    let l = input.get_action("left");
    assert!(l.is_down);
    assert!(!l.just_down);
    assert!(!l.just_up);
    let r = input.get_action("right");
    assert!(all_false(r));
    assert_eq!(input.get_mouse_delta(), glam::Vec2::ZERO);
}

#[test]
fn two_buttons_drive_one_action() {
    let mut input = Input::new();
    input.register_action("move");
    input.bind_button(Button::Key(1), "move");
    input.bind_button(Button::Key(2), "move");

    // Toggling either button alone drives the shared action.
    input.update_button(Button::Key(1), true);
    assert!(input.get_action("move").is_down);
    input.update_button(Button::Key(1), false);
    assert!(!input.get_action("move").is_down);

    input.update_button(Button::Key(2), true);
    assert!(input.get_action("move").is_down);

    // A press of the other button while one is held keeps it down.
    input.update_button(Button::Key(1), true);
    assert!(input.get_action("move").is_down);
}

#[test]
fn get_action_on_unregistered_name_is_default() {
    let mut input = Input::new();
    input.register_action("real");
    input.update_action("real", true);

    let ghost_action = input.get_action("missing");
    assert!(all_false(ghost_action));

    // The query mutated nothing.
    let real = input.get_action("real");
    assert!(real.is_down);
    assert!(real.just_down);
}

#[test]
fn update_action_on_unregistered_name_is_noop() {
    let mut input = Input::new();
    input.register_action("real");
    input.update_action("missing", true);
    assert!(all_false(input.get_action("missing")));
    assert!(all_false(input.get_action("real")));
}

#[test]
fn button_bound_to_unregistered_action_is_noop() {
    let mut input = Input::new();
    input.bind_button(KEY_W, "never_registered");
    input.update_button(KEY_W, true);
    assert!(all_false(input.get_action("never_registered")));
}

#[test]
fn reregistration_keeps_first_state() {
    let mut input = Input::new();
    input.register_action("held");
    input.update_action("held", true);

    input.register_action("held");

    let a = input.get_action("held");
    assert!(a.is_down);
    assert!(a.just_down);
}

#[test]
fn rebinding_overwrites_the_association() {
    let mut input = Input::new();
    input.register_action("first");
    input.register_action("second");
    input.bind_button(KEY_W, "first");
    input.bind_button(KEY_W, "second");

    input.update_button(KEY_W, true);
    assert!(all_false(input.get_action("first")));
    assert!(input.get_action("second").is_down);
}

#[test]
fn forward_back_scenario() {
    let mut input = Input::new();
    input.register_action("forward");
    input.register_action("back");
    input.bind_button(KEY_W, "forward");
    input.bind_button(KEY_S, "back");

    // KeyW goes down; this tick's consumers see the down edge.
    input.update_button(KEY_W, true);
    let f = input.get_action("forward");
    assert!(f.is_down);
    assert!(f.just_down);
    assert!(all_false(input.get_action("back")));

    // Next tick without new events: still held, edge gone.
    input.update();
    let f = input.get_action("forward");
    assert!(f.is_down);
    assert!(!f.just_down);
    assert!(!f.just_up);

    // KeyW goes up: released, with an up edge.
    input.update();
    input.update_button(KEY_W, false);
    let f = input.get_action("forward");
    assert!(!f.is_down);
    assert!(!f.just_down);
    assert!(f.just_up);
}

#[test]
fn mouse_delta_accumulates_between_resets() {
    let mut input = Input::new();
    input.update_mouse_delta(glam::Vec2::new(1.5, 2.0));
    input.update_mouse_delta(glam::Vec2::new(0.5, -1.0));
    assert_eq!(input.get_mouse_delta(), glam::Vec2::new(2.0, 1.0));

    input.update();
    assert_eq!(input.get_mouse_delta(), glam::Vec2::ZERO);

    input.update_mouse_delta(glam::Vec2::new(-4.0, 0.25));
    assert_eq!(input.get_mouse_delta(), glam::Vec2::new(-4.0, 0.25));
}

#[test]
fn is_down_reads_the_held_state() {
    let mut input = Input::new();
    input.register_action("peek");
    assert!(!input.get_action("peek").is_down());
    input.update_action("peek", true);
    assert!(input.get_action("peek").is_down());
}
