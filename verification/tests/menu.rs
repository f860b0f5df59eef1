//! Menu navigation over the arena: carousel wraparound, drill-in and
//! drill-out, delegation, and the focus stack.

use menu_overlay::Arena;
use menu_overlay::Button;
use menu_overlay::Buttons;
use menu_overlay::Event;
use menu_overlay::Menu;
use menu_overlay::State;
use menu_overlay::Text;
use menu_overlay::Toggle;
use menu_overlay::Widget;

fn buttons(a: bool, b: bool, left: bool, right: bool) -> Buttons {
    Buttons { a, b, left, right, up: false, down: false, l: false, r: false }
}

fn trig(a: bool, b: bool, left: bool, right: bool) -> State {
    State { trigger: buttons(a, b, left, right), hold: Buttons::none() }
}

/// A main menu over three entries: a drillable "Video" submenu, an "Audio"
/// toggle and an "Exit" button.  Returns the arena and the indices of
/// (main, video, audio, exit).
fn demo() -> (Arena, usize, usize, usize, usize) {
    let mut arena = Arena::new();
    let play = arena.add(Widget::Button(Button::new("Play")));
    let video = arena.add(Widget::Menu(Menu::new("Video", vec![play])));
    let audio = arena.add(Widget::Toggle(Toggle::new("Audio", false)));
    let exit = arena.add(Widget::Button(Button::new("Exit")));
    let main = arena.add(Widget::Menu(Menu::new("Main", vec![video, audio, exit])));
    (arena, main, video, audio, exit)
}

fn menu_pos(arena: &Arena, idx: usize) -> usize {
    match arena.node(idx) {
        Widget::Menu(m) => m.pos,
        _ => panic!("not a menu"),
    }
}

fn menu_focused(arena: &Arena, idx: usize) -> bool {
    match arena.node(idx) {
        Widget::Menu(m) => m.focused,
        _ => panic!("not a menu"),
    }
}

#[test]
fn unfocused_menu_renders_label_and_enter_glyph() {
    let (arena, main, _, _, _) = demo();
    assert_eq!(arena.render_at(main), "Main \u{23ce}");
}

#[test]
fn focused_menu_renders_carousel_around_child() {
    let (mut arena, main, _, _, _) = demo();
    arena.focus_at(main);
    assert_eq!(arena.render_at(main), "\u{25c0}\u{3000}Video \u{23ce}\u{3000}\u{25b6}");
}

#[test]
fn enter_focuses_child_and_pushes_it() {
    let (mut arena, main, video, _, _) = demo();
    arena.focus_at(main);
    let mut stack = vec![main];
    let r = arena.control_at(main, trig(true, false, false, false), &mut stack);
    assert!(r.changed);
    assert_eq!(r.event, None);
    assert_eq!(stack, vec![main, video]);
    assert!(menu_focused(&arena, video));
    // The new stack top renders as a carousel around its own child.
    assert_eq!(arena.render_at(video), "\u{25c0}\u{3000}<Play>\u{3000}\u{25b6}");
}

#[test]
fn right_cycles_through_all_items() {
    let (mut arena, main, _, _, _) = demo();
    arena.focus_at(main);
    let mut stack = vec![main];
    let right = trig(false, false, false, true);
    let mut seen = Vec::new();
    for _ in 0..3 {
        let r = arena.control_at(main, right, &mut stack);
        assert!(r.changed);
        seen.push(menu_pos(&arena, main));
    }
    // Three Right-presses on a three-item menu return to the start.
    assert_eq!(seen, vec![1, 2, 0]);
}

#[test]
fn left_wraps_to_last_item() {
    let (mut arena, main, _, _, _) = demo();
    arena.focus_at(main);
    let mut stack = vec![main];
    let left = trig(false, false, true, false);
    let r = arena.control_at(main, left, &mut stack);
    assert!(r.changed);
    assert_eq!(menu_pos(&arena, main), 2);
    for _ in 0..2 {
        arena.control_at(main, left, &mut stack);
    }
    assert_eq!(menu_pos(&arena, main), 0);
}

#[test]
fn input_without_navigation_is_delegated_to_child() {
    let (mut arena, main, _, audio, _) = demo();
    arena.focus_at(main);
    let mut stack = vec![main];
    // Move the carousel onto the toggle, then press A: the toggle is not
    // focusable, so the press is delegated and flips it.
    arena.control_at(main, trig(false, false, false, true), &mut stack);
    let r = arena.control_at(main, trig(true, false, false, false), &mut stack);
    assert!(r.changed);
    assert_eq!(r.event, Some((audio, Event::Toggled(true))));
    assert_eq!(stack, vec![main]);
}

#[test]
fn delegated_button_press_reports_no_change() {
    let (mut arena, main, _, _, exit) = demo();
    arena.focus_at(main);
    let mut stack = vec![main];
    arena.control_at(main, trig(false, false, true, false), &mut stack);
    assert_eq!(menu_pos(&arena, main), 2);
    let r = arena.control_at(main, trig(true, false, false, false), &mut stack);
    assert!(!r.changed);
    assert_eq!(r.event, Some((exit, Event::Pressed)));
}

#[test]
fn text_line_refreshes_in_arena() {
    let mut arena = Arena::new();
    let fps = arena.add(Widget::Text(Text::new("fps: 60")));
    let main = arena.add(Widget::Menu(Menu::new("Main", vec![fps])));
    assert_eq!(arena.render_at(fps), "fps: 60");
    arena.set_text_at(fps, "fps: 31");
    assert_eq!(arena.render_at(fps), "fps: 31");
    // A non-text widget is left untouched.
    arena.set_text_at(main, "ignored");
    assert_eq!(arena.render_at(main), "Main \u{23ce}");
}

#[test]
fn back_pops_and_unfocuses() {
    let (mut arena, main, video, _, _) = demo();
    arena.focus_at(main);
    let mut stack = vec![main];
    arena.control_at(main, trig(true, false, false, false), &mut stack);
    assert_eq!(stack, vec![main, video]);
    let r = arena.control_at(video, trig(false, true, false, false), &mut stack);
    assert!(r.changed);
    assert_eq!(stack, vec![main]);
    assert!(!menu_focused(&arena, video));
}

#[test]
fn back_at_root_depth_is_a_no_op() {
    let (mut arena, main, _, _, _) = demo();
    arena.focus_at(main);
    let mut stack = vec![main];
    let r = arena.control_at(main, trig(false, true, false, false), &mut stack);
    assert!(!r.changed);
    assert_eq!(r.event, None);
    assert_eq!(stack, vec![main]);
    assert!(menu_focused(&arena, main));
}
