//! The navigation laws of the engine, stated and proved over the same spec
//! functions that the widgets' contracts use.

use vstd::prelude::*;

use crate::arena::left_pos;
use crate::arena::right_pos;
use crate::arena::step;
use crate::arena::wf_nodes;
use crate::arena::widget_ok;
use crate::input::State;
use crate::widget::Event;
use crate::widget::Menu;
use crate::widget::Number;
use crate::widget::Select;
use crate::widget::Toggle;
use crate::widget::Widget;
use vstd::arithmetic::div_mod::lemma_add_mod_noop;
use vstd::arithmetic::div_mod::lemma_mod_add_multiples_vanish;
use vstd::arithmetic::div_mod::lemma_mod_bound;
use vstd::arithmetic::div_mod::lemma_small_mod;

verus! {

/// The carousel position after `n` Right-presses.
pub open spec fn iter_right(pos: int, len: int, n: nat) -> int
    decreases n,
{
    if n == 0 {
        pos
    } else {
        right_pos(iter_right(pos, len, (n - 1) as nat), len)
    }
}

/// The carousel position after `n` Left-presses.
pub open spec fn iter_left(pos: int, len: int, n: nat) -> int
    decreases n,
{
    if n == 0 {
        pos
    } else {
        left_pos(iter_left(pos, len, (n - 1) as nat), len)
    }
}

/// `n` Right-presses land on `(pos + n) % len`.
pub proof fn lemma_iter_right_adds(pos: int, len: int, n: nat)
    requires
        0 <= pos < len,
    ensures
        iter_right(pos, len, n) == (pos + n) % len,
    decreases n,
{
    if n == 0 {
        lemma_small_mod(pos as nat, len as nat);
    } else {
        lemma_iter_right_adds(pos, len, (n - 1) as nat);
        lemma_add_mod_noop(pos + n - 1, 1, len);
        if len == 1 {
            lemma_mod_bound(pos + n - 1, len);
            lemma_mod_bound(pos + n, len);
            lemma_mod_bound(1, len);
        } else {
            lemma_small_mod(1nat, len as nat);
            lemma_mod_bound(pos + n - 1, len);
            if (pos + n - 1) % len + 1 < len {
            } else {
                lemma_mod_add_multiples_vanish((pos + n - 1) % len + 1 - len, len);
                lemma_mod_bound(pos + n, len);
                lemma_small_mod(((pos + n - 1) % len + 1 - len) as nat, len as nat);
            }
        }
    }
}

/// Carousel cyclicity, rightwards: on a menu of `len` items, pressing Right
/// `len` times returns the position to where it started.
pub proof fn lemma_right_cycle(pos: int, len: int)
    requires
        0 <= pos < len,
    ensures
        iter_right(pos, len, len as nat) == pos,
{
    lemma_iter_right_adds(pos, len, len as nat);
    lemma_mod_add_multiples_vanish(pos, len);
    lemma_small_mod(pos as nat, len as nat);
}

/// Left- and Right-presses stay inside the item list.
pub proof fn lemma_iter_left_in_range(pos: int, len: int, n: nat)
    requires
        0 <= pos < len,
    ensures
        0 <= iter_left(pos, len, n) < len,
    decreases n,
{
    if n > 0 {
        lemma_iter_left_in_range(pos, len, (n - 1) as nat);
    }
}

/// A Right-press undoes a Left-press.
pub proof fn lemma_right_undoes_left(pos: int, len: int)
    requires
        0 <= pos < len,
    ensures
        right_pos(left_pos(pos, len), len) == pos,
{
    if pos == 0 {
        vstd::arithmetic::div_mod::lemma_mod_self_0(len);
    } else {
        lemma_small_mod(pos as nat, len as nat);
    }
}

/// Presses can be peeled from either end of a run of Right-presses.
pub proof fn lemma_iter_right_shift(pos: int, len: int, n: nat)
    ensures
        iter_right(pos, len, (n + 1) as nat) == iter_right(right_pos(pos, len), len, n),
    decreases n,
{
    if n == 0 {
        assert(iter_right(pos, len, 0) == pos);
        assert(iter_right(right_pos(pos, len), len, 0) == right_pos(pos, len));
        assert(iter_right(pos, len, 1) == right_pos(iter_right(pos, len, 0), len));
    } else {
        lemma_iter_right_shift(pos, len, (n - 1) as nat);
        assert(iter_right(pos, len, (n + 1) as nat) == right_pos(iter_right(pos, len, n), len));
        assert(iter_right(right_pos(pos, len), len, n) == right_pos(
            iter_right(right_pos(pos, len), len, (n - 1) as nat),
            len,
        ));
    }
}

/// `n` Right-presses undo `n` Left-presses.
pub proof fn lemma_rights_undo_lefts(pos: int, len: int, n: nat)
    requires
        0 <= pos < len,
    ensures
        iter_right(iter_left(pos, len, n), len, n) == pos,
    decreases n,
{
    if n > 0 {
        let y = iter_left(pos, len, (n - 1) as nat);
        lemma_iter_left_in_range(pos, len, (n - 1) as nat);
        lemma_right_undoes_left(y, len);
        lemma_iter_right_shift(left_pos(y, len), len, (n - 1) as nat);
        lemma_rights_undo_lefts(pos, len, (n - 1) as nat);
    }
}

/// Carousel cyclicity, leftwards: on a menu of `len` items, pressing Left
/// `len` times returns the position to where it started.
pub proof fn lemma_left_cycle(pos: int, len: int)
    requires
        0 <= pos < len,
    ensures
        iter_left(pos, len, len as nat) == pos,
{
    let q = iter_left(pos, len, len as nat);
    lemma_iter_left_in_range(pos, len, len as nat);
    lemma_rights_undo_lefts(pos, len, len as nat);
    lemma_right_cycle(q, len);
}

/// A dispatched Left- or Right-press moves a menu's position exactly by
/// [`left_pos`] / [`right_pos`] and touches nothing else, so the cyclicity
/// lemmas above speak about menu navigation itself.
pub proof fn lemma_menu_carousel(nodes: Seq<Widget>, idx: int, input: State, stack: Seq<usize>)
    requires
        wf_nodes(nodes),
        0 <= idx < nodes.len(),
        nodes[idx] is Menu,
        !input.trigger.a,
        !input.trigger.b,
    ensures
        ({
            let m = nodes[idx]->Menu_0;
            let r = step(nodes, idx, input, stack);
            &&& input.trigger.left ==> r.0[idx]->Menu_0.pos == left_pos(
                m.pos as int,
                m.items@.len() as int,
            ) && r.1 == stack && r.2
            &&& !input.trigger.left && input.trigger.right ==> r.0[idx]->Menu_0.pos == right_pos(
                m.pos as int,
                m.items@.len() as int,
            ) && r.1 == stack && r.2
        }),
{
    assert(widget_ok(nodes[idx], idx));
    let m = nodes[idx]->Menu_0;
    let len = m.items@.len() as int;
    vstd::std_specs::vec::axiom_spec_len(&m.items);
    if input.trigger.left {
        assert(0 <= left_pos(m.pos as int, len) < len);
    } else if input.trigger.right {
        lemma_mod_bound(m.pos + 1, len);
    }
}

/// The arena after `n` dispatched ticks of the same input snapshot.
pub open spec fn run_steps(
    nodes: Seq<Widget>,
    idx: int,
    input: State,
    stack: Seq<usize>,
    n: nat,
) -> Seq<Widget>
    decreases n,
{
    if n == 0 {
        nodes
    } else {
        step(run_steps(nodes, idx, input, stack, (n - 1) as nat), idx, input, stack).0
    }
}

/// A pure Right-press: no other navigation button fires with it.
pub open spec fn right_only(input: State) -> bool {
    !input.trigger.a && !input.trigger.b && !input.trigger.left && input.trigger.right
}

/// A pure Left-press: no other navigation button fires with it.
pub open spec fn left_only(input: State) -> bool {
    !input.trigger.a && !input.trigger.b && input.trigger.left
}

/// `n` dispatched pure Right-presses only turn the menu's carousel: the
/// arena is the original with the position advanced `n` steps.
proof fn lemma_run_steps_right(nodes: Seq<Widget>, idx: int, input: State, stack: Seq<usize>, n: nat)
    requires
        wf_nodes(nodes),
        0 <= idx < nodes.len(),
        nodes[idx] is Menu,
        right_only(input),
    ensures
        ({
            let m = nodes[idx]->Menu_0;
            let len = m.items@.len() as int;
            run_steps(nodes, idx, input, stack, n) == nodes.update(
                idx,
                Widget::Menu(
                    Menu {
                        name: m.name,
                        items: m.items,
                        pos: iter_right(m.pos as int, len, n) as usize,
                        focused: m.focused,
                    },
                ),
            )
        }),
    decreases n,
{
    let m = nodes[idx]->Menu_0;
    let len = m.items@.len() as int;
    assert(widget_ok(nodes[idx], idx));
    vstd::std_specs::vec::axiom_spec_len(&m.items);
    if n == 0 {
        assert(nodes.update(idx, Widget::Menu(m)) =~= nodes);
    } else {
        lemma_run_steps_right(nodes, idx, input, stack, (n - 1) as nat);
        let before = run_steps(nodes, idx, input, stack, (n - 1) as nat);
        lemma_iter_right_adds(m.pos as int, len, (n - 1) as nat);
        lemma_mod_bound(m.pos + n - 1, len);
        lemma_iter_right_adds(m.pos as int, len, n);
        lemma_mod_bound(m.pos + n, len);
        assert(step(before, idx, input, stack).0 =~= nodes.update(
            idx,
            Widget::Menu(
                Menu {
                    name: m.name,
                    items: m.items,
                    pos: iter_right(m.pos as int, len, n) as usize,
                    focused: m.focused,
                },
            ),
        ));
    }
}

/// `n` dispatched pure Left-presses only turn the menu's carousel: the
/// arena is the original with the position moved back `n` steps.
proof fn lemma_run_steps_left(nodes: Seq<Widget>, idx: int, input: State, stack: Seq<usize>, n: nat)
    requires
        wf_nodes(nodes),
        0 <= idx < nodes.len(),
        nodes[idx] is Menu,
        left_only(input),
    ensures
        ({
            let m = nodes[idx]->Menu_0;
            let len = m.items@.len() as int;
            run_steps(nodes, idx, input, stack, n) == nodes.update(
                idx,
                Widget::Menu(
                    Menu {
                        name: m.name,
                        items: m.items,
                        pos: iter_left(m.pos as int, len, n) as usize,
                        focused: m.focused,
                    },
                ),
            )
        }),
    decreases n,
{
    let m = nodes[idx]->Menu_0;
    let len = m.items@.len() as int;
    assert(widget_ok(nodes[idx], idx));
    vstd::std_specs::vec::axiom_spec_len(&m.items);
    if n == 0 {
        assert(nodes.update(idx, Widget::Menu(m)) =~= nodes);
    } else {
        lemma_run_steps_left(nodes, idx, input, stack, (n - 1) as nat);
        let before = run_steps(nodes, idx, input, stack, (n - 1) as nat);
        lemma_iter_left_in_range(m.pos as int, len, (n - 1) as nat);
        lemma_iter_left_in_range(m.pos as int, len, n);
        assert(step(before, idx, input, stack).0 =~= nodes.update(
            idx,
            Widget::Menu(
                Menu {
                    name: m.name,
                    items: m.items,
                    pos: iter_left(m.pos as int, len, n) as usize,
                    focused: m.focused,
                },
            ),
        ));
    }
}

/// Carousel cyclicity over the engine itself: on a menu of `N` items,
/// dispatching `N` pure Right-presses — or `N` pure Left-presses — from any
/// starting position leaves the whole arena exactly as it was.
pub proof fn lemma_menu_cycle(nodes: Seq<Widget>, idx: int, input: State, stack: Seq<usize>)
    requires
        wf_nodes(nodes),
        0 <= idx < nodes.len(),
        nodes[idx] is Menu,
    ensures
        right_only(input) ==> run_steps(nodes, idx, input, stack, nodes[idx]->Menu_0.items@.len())
            == nodes,
        left_only(input) ==> run_steps(nodes, idx, input, stack, nodes[idx]->Menu_0.items@.len())
            == nodes,
{
    let m = nodes[idx]->Menu_0;
    let len = m.items@.len() as int;
    assert(widget_ok(nodes[idx], idx));
    if right_only(input) {
        lemma_run_steps_right(nodes, idx, input, stack, len as nat);
        lemma_right_cycle(m.pos as int, len);
        assert(nodes.update(idx, Widget::Menu(m)) =~= nodes);
    }
    if left_only(input) {
        lemma_run_steps_left(nodes, idx, input, stack, len as nat);
        lemma_left_cycle(m.pos as int, len);
        assert(nodes.update(idx, Widget::Menu(m)) =~= nodes);
    }
}

/// The number after any sequence of ticks, each stepped by its own input.
pub open spec fn number_run(n: Number, inputs: Seq<State>) -> Number
    decreases inputs.len(),
{
    if inputs.len() == 0 {
        n
    } else {
        number_run(n, inputs.drop_last()).spec_step(inputs.last()).0
    }
}

/// One tick keeps a number inside its bounds.
pub proof fn lemma_number_step_inv(n: Number, input: State)
    requires
        n.inv(),
    ensures
        n.spec_step(input).0.inv(),
{
}

/// A number stays inside its bounds after any sequence of presses.
pub proof fn lemma_number_run_inv(n: Number, inputs: Seq<State>)
    requires
        n.inv(),
    ensures
        number_run(n, inputs).inv(),
    decreases inputs.len(),
{
    if inputs.len() > 0 {
        lemma_number_run_inv(n, inputs.drop_last());
        lemma_number_step_inv(number_run(n, inputs.drop_last()), inputs.last());
    }
}

/// Pressing Up when the value already sits at the maximum leaves it there.
pub proof fn lemma_number_up_at_max(n: Number, input: State)
    requires
        n.inv(),
        n.value == n.max,
        input.trigger.up,
        !input.trigger.down,
    ensures
        n.spec_step(input).0.value == n.max,
        n.spec_step(input).1,
{
}

/// Pressing Down when the value already sits at the minimum leaves it there.
pub proof fn lemma_number_down_at_min(n: Number, input: State)
    requires
        n.inv(),
        n.value == n.min,
        input.trigger.down,
        !input.trigger.up,
    ensures
        n.spec_step(input).0.value == n.min,
        n.spec_step(input).1,
{
}

/// One tick keeps a select's index inside `[0, len - 1]`, whatever was
/// pressed.
pub proof fn lemma_select_step_inv(s: Select, input: State)
    requires
        s.inv(),
    ensures
        s.spec_step(input).0.inv(),
        s.spec_step(input).0.options == s.options,
{
    vstd::std_specs::vec::axiom_spec_len(&s.options);
}

/// A press against either boundary still reports a change but leaves the
/// index unchanged: Up at the last index, Down at index 0.
pub proof fn lemma_select_boundary(s: Select, input: State)
    requires
        s.inv(),
    ensures
        input.trigger.up && !input.trigger.down && s.index == s.options@.len() - 1 ==> s.spec_step(
            input,
        ).0.index == s.index && s.spec_step(input).1,
        input.trigger.down && !input.trigger.up && s.index == 0 ==> s.spec_step(input).0.index
            == s.index && s.spec_step(input).1,
{
    vstd::std_specs::vec::axiom_spec_len(&s.options);
}

/// The focus stack never empties: one dispatched tick leaves at least one
/// entry on a non-empty stack.
pub proof fn lemma_stack_depth(nodes: Seq<Widget>, idx: int, input: State, stack: Seq<usize>)
    requires
        wf_nodes(nodes),
        0 <= idx < nodes.len(),
        stack.len() >= 1,
    ensures
        step(nodes, idx, input, stack).1.len() >= 1,
{
    crate::arena::lemma_step_wf(nodes, idx, input, stack);
}

/// Pressing Back on a menu when the stack holds only the root is a no-op:
/// nothing changes and no change is reported.
pub proof fn lemma_back_at_root(nodes: Seq<Widget>, idx: int, input: State, stack: Seq<usize>)
    requires
        wf_nodes(nodes),
        0 <= idx < nodes.len(),
        nodes[idx] is Menu,
        stack.len() == 1,
        input.trigger.b,
        !input.trigger.a,
    ensures
        step(nodes, idx, input, stack) == (nodes, stack, false, None::<(usize, Event)>),
{
    assert(widget_ok(nodes[idx], idx));
}

/// An A-press flips a toggle to the opposite value, reports a change, and
/// reports exactly the value it flipped to — never the old one.
pub proof fn lemma_toggle_flip(t: Toggle, input: State)
    requires
        input.trigger.a,
    ensures
        t.spec_step(input).0.value == !t.value,
        t.spec_step(input).1,
        t.spec_step(input).2 == Some(Event::Toggled(!t.value)),
{
}

/// The toggle after any sequence of ticks, each stepped by its own input.
pub open spec fn toggle_run(t: Toggle, inputs: Seq<State>) -> Toggle
    decreases inputs.len(),
{
    if inputs.len() == 0 {
        t
    } else {
        toggle_run(t, inputs.drop_last()).spec_step(inputs.last()).0
    }
}

/// Over any run of A-presses the toggle strictly alternates: its value
/// depends only on the parity of the number of presses.
pub proof fn lemma_toggle_alternates(t: Toggle, inputs: Seq<State>)
    requires
        forall|i: int| 0 <= i < inputs.len() ==> (#[trigger] inputs[i]).trigger.a,
    ensures
        toggle_run(t, inputs).value == (if inputs.len() % 2 == 0 {
            t.value
        } else {
            !t.value
        }),
    decreases inputs.len(),
{
    if inputs.len() > 0 {
        lemma_toggle_alternates(t, inputs.drop_last());
        assert(inputs[inputs.len() - 1].trigger.a);
    }
}

} // verus!
