//! Leaf-widget behaviour: rendering, stepping, clamping and events.

use menu_overlay::Buttons;
use menu_overlay::Event;
use menu_overlay::Button;
use menu_overlay::Number;
use menu_overlay::Select;
use menu_overlay::Selection;
use menu_overlay::State;
use menu_overlay::Text;
use menu_overlay::Toggle;

fn buttons(a: bool, b: bool, left: bool, right: bool, up: bool, down: bool) -> Buttons {
    Buttons { a, b, left, right, up, down, l: false, r: false }
}

fn trig(a: bool, b: bool, left: bool, right: bool, up: bool, down: bool) -> State {
    State { trigger: buttons(a, b, left, right, up, down), hold: Buttons::none() }
}

#[test]
fn button_render_exact() {
    let b = Button::new("Go");
    assert_eq!(b.render(), "<Go>");
}

#[test]
fn button_never_reports_change() {
    let mut b = Button::new("Go");
    let (changed, event) = b.control(trig(true, false, false, false, false, false));
    assert!(!changed);
    assert_eq!(event, Some(Event::Pressed));
    let (changed, event) = b.control(trig(false, false, true, true, true, true));
    assert!(!changed);
    assert_eq!(event, None);
}

#[test]
fn text_renders_current_line_and_always_changes() {
    let mut t = Text::new("fps: 60");
    assert_eq!(t.render(), "fps: 60");
    let (changed, event) = t.control(State::idle());
    assert!(changed);
    assert_eq!(event, None);
    t.set("fps: 31");
    assert_eq!(t.render(), "fps: 31");
}

#[test]
fn number_up_clamps_at_max() {
    // Start at 5, step 1 in [0, 10]: one Up makes 6, eight more clamp at 10,
    // further Up-presses keep 10.
    let mut n = Number::new("N", 5, 1, 0, 10);
    let up = trig(false, false, false, false, true, false);
    let (changed, _) = n.control(up);
    assert!(changed);
    assert_eq!(n.value, 6);
    for _ in 0..8 {
        n.control(up);
    }
    assert_eq!(n.value, 10);
    let (changed, _) = n.control(up);
    assert!(changed);
    assert_eq!(n.value, 10);
}

#[test]
fn number_down_clamps_at_min() {
    let mut n = Number::new("N", 1, 3, 0, 10);
    let down = trig(false, false, false, false, false, true);
    let (changed, _) = n.control(down);
    assert!(changed);
    assert_eq!(n.value, 0);
    let (changed, _) = n.control(down);
    assert!(changed);
    assert_eq!(n.value, 0);
}

#[test]
fn number_both_directions_in_one_tick() {
    let mut n = Number::new("N", 5, 1, 0, 10);
    let both = trig(false, false, false, false, true, true);
    let (changed, _) = n.control(both);
    assert!(changed);
    assert_eq!(n.value, 5);
}

#[test]
fn number_event_carries_value_after_moves() {
    let mut n = Number::new("N", 5, 1, 0, 10);
    let up_and_a = trig(true, false, false, false, true, false);
    let (changed, event) = n.control(up_and_a);
    assert!(changed);
    assert_eq!(event, Some(Event::Activated(6)));
    let a_only = trig(true, false, false, false, false, false);
    let (changed, event) = n.control(a_only);
    assert!(!changed);
    assert_eq!(event, Some(Event::Activated(6)));
}

#[test]
fn number_render_icons() {
    assert_eq!(Number::new("Vol", 0, 1, 0, 10).render(), "Vol: 0 \u{2191}");
    assert_eq!(Number::new("Vol", 10, 1, 0, 10).render(), "Vol: 10 \u{2193}");
    assert_eq!(Number::new("Vol", 5, 1, 0, 10).render(), "Vol: 5 \u{2195}");
    // A collapsed range shows the up icon: the minimum check comes first.
    assert_eq!(Number::new("Vol", 3, 1, 3, 3).render(), "Vol: 3 \u{2191}");
}

#[test]
fn number_clamps_at_extreme_bounds() {
    // The candidate value would leave the machine range; clamping still
    // lands exactly on the bound.
    let up = trig(false, false, false, false, true, false);
    let down = trig(false, false, false, false, false, true);
    let mut n = Number::new("B", i64::MAX - 1, 5, 0, i64::MAX);
    n.control(up);
    assert_eq!(n.value, i64::MAX);
    let mut m = Number::new("B", i64::MIN + 1, 5, i64::MIN, 0);
    m.control(down);
    assert_eq!(m.value, i64::MIN);
    assert_eq!(m.render(), "B: -9223372036854775808 \u{2191}");
}

#[test]
fn number_render_negative_value() {
    assert_eq!(Number::new("T", -3, 1, -5, 5).render(), "T: -3 \u{2195}");
    assert_eq!(Number::new("T", -5, 1, -5, 5).render(), "T: -5 \u{2191}");
}

#[test]
fn selection_pairs_name_and_value() {
    let s = Selection::new("Low", 240);
    assert_eq!(s.name, "Low");
    assert_eq!(s.value, 240);
}

#[test]
fn select_boundary_presses_report_change_without_moving() {
    let options = vec![Selection::new("Low", 1), Selection::new("High", 2)];
    let mut s = Select::new("Mode", &options);
    let down = trig(false, false, false, false, false, true);
    let up = trig(false, false, false, false, true, false);
    // Down at index 0: a change is reported, the index stays.
    let (changed, _) = s.control(down);
    assert!(changed);
    assert_eq!(s.index, 0);
    // Up moves to the last index; Up again reports a change, the index stays.
    let (changed, _) = s.control(up);
    assert!(changed);
    assert_eq!(s.index, 1);
    let (changed, _) = s.control(up);
    assert!(changed);
    assert_eq!(s.index, 1);
}

#[test]
fn select_event_carries_index_after_moves() {
    let options = vec![Selection::new("Low", 1), Selection::new("High", 2)];
    let mut s = Select::new("Mode", &options);
    let up_and_a = trig(true, false, false, false, true, false);
    let (changed, event) = s.control(up_and_a);
    assert!(changed);
    assert_eq!(event, Some(Event::Chosen(1)));
}

#[test]
fn select_render_icons() {
    let options = vec![
        Selection::new("Low", 1),
        Selection::new("Mid", 2),
        Selection::new("High", 3),
    ];
    let mut s = Select::new("Mode", &options);
    assert_eq!(s.render(), "Mode: Low \u{2191}");
    let up = trig(false, false, false, false, true, false);
    s.control(up);
    assert_eq!(s.render(), "Mode: Mid \u{2195}");
    s.control(up);
    assert_eq!(s.render(), "Mode: High \u{2193}");
}

#[test]
fn select_single_option_shows_up_icon() {
    let options = vec![Selection::new("Only", 0)];
    let s = Select::new("Mode", &options);
    assert_eq!(s.render(), "Mode: Only \u{2191}");
}

#[test]
fn toggle_alternates_and_reports_new_value() {
    let mut t = Toggle::new("Mute", false);
    let a = trig(true, false, false, false, false, false);
    let (changed, event) = t.control(a);
    assert!(changed);
    assert_eq!(t.value, true);
    assert_eq!(event, Some(Event::Toggled(true)));
    let (changed, event) = t.control(a);
    assert!(changed);
    assert_eq!(t.value, false);
    assert_eq!(event, Some(Event::Toggled(false)));
}

#[test]
fn toggle_ignores_other_buttons() {
    let mut t = Toggle::new("Mute", true);
    let (changed, event) = t.control(trig(false, true, true, true, true, true));
    assert!(!changed);
    assert_eq!(event, None);
    assert_eq!(t.value, true);
}

#[test]
fn toggle_render_exact() {
    assert_eq!(Toggle::new("Mute", true).render(), "Mute [X]");
    assert_eq!(Toggle::new("Mute", false).render(), "Mute [  ]");
}
