//! The binding-and-update engine: an append-only store of logical axes
//! (current/previous value pairs), a binding index from physical controls to
//! the axis slots they feed, and a name index for slow-path lookup.

use vstd::prelude::*;

use crate::control::Control;
use crate::control::CtrlType;
use crate::control::MouseAxis;
use crate::control::gamepad_axis_ctrl;
use crate::control::gamepad_button_ctrl;
use crate::control::keyboard_ctrl;
use crate::control::mouse_axis_ctrl;
use crate::control::mouse_button_ctrl;

verus! {

/// Fixed-point unit: scalar values are integers in thousandths.
pub const SCALE: i64 = 1000;

/// Value written by a press event (1.0).
pub const PRESSED: i64 = 1000;

/// Value written by a release event (0.0).
pub const RELEASED: i64 = 0;

/// Default `get_down` threshold (0.9).
pub const DOWN_THRESHOLD: i64 = 900;

/// Largest magnitude an axis value may have. Keeps `get_delta` exact.
pub const VALUE_LIMIT: i64 = 4000000000000000;

/// Largest magnitude of a raw mouse coordinate.
pub const POS_LIMIT: i64 = 1000000000;

/// Largest magnitude of a mouse sensitivity (in thousandths).
pub const SENS_LIMIT: i64 = 1000000;

/// One axis slot's state: the value set by the most recent update to the
/// slot, and the value it held immediately before that update.
#[derive(Debug, Copy, Clone, PartialEq, Eq, Structural)]
struct AxisState {
    current: i64,
    previous: i64,
}

/// Opaque handle to one logical axis slot. Only obtained from the engine,
/// never constructed by callers.
#[derive(Debug, Copy, Clone, PartialEq, Eq, Structural)]
pub struct Axis {
    idx: usize,
}

impl Axis {
    /// The slot's position in the axis store.
    pub closed spec fn id(self) -> int {
        self.idx as int
    }

    /// The slot's position in the axis store, for the index-based queries.
    pub fn index(self) -> (r: usize)
        ensures
            r as int == self.id(),
    {
        self.idx
    }
}

/// One update applied to one slot: the current value moves to previous and
/// the new value becomes current. Out-of-range slots change nothing.
pub open spec fn apply_one(axes: Seq<(int, int)>, slot: int, v: int) -> Seq<(int, int)> {
    if 0 <= slot < axes.len() {
        axes.update(slot, (v, axes[slot].0))
    } else {
        axes
    }
}

/// The slot updates of one event, applied in order.
pub open spec fn apply_updates(axes: Seq<(int, int)>, slots: Seq<int>, v: int) -> Seq<(int, int)>
    decreases slots.len(),
{
    if slots.len() == 0 {
        axes
    } else {
        apply_one(apply_updates(axes, slots.drop_last(), v), slots.last(), v)
    }
}

/// How many times a slot occurs in an update list.
pub open spec fn occurrences(slots: Seq<int>, s: int) -> nat
    decreases slots.len(),
{
    if slots.len() == 0 {
        0
    } else {
        occurrences(slots.drop_last(), s) + (if slots.last() == s { 1nat } else { 0nat })
    }
}

/// The slots bound to a control: the slot of every binding pair whose
/// control matches, in binding order.
pub open spec fn slots_for(pairs: Seq<(Control, int)>, c: Control) -> Seq<int>
    decreases pairs.len(),
{
    if pairs.len() == 0 {
        Seq::empty()
    } else if pairs.last().0 == c {
        slots_for(pairs.drop_last(), c).push(pairs.last().1)
    } else {
        slots_for(pairs.drop_last(), c)
    }
}

/// The slot a name resolves to: the most recently bound pair with that name
/// wins (duplicate names shadow earlier ones).
pub open spec fn name_slot(pairs: Seq<(Seq<char>, int)>, n: Seq<char>) -> Option<int>
    decreases pairs.len(),
{
    if pairs.len() == 0 {
        None
    } else if pairs.last().0 == n {
        Some(pairs.last().1)
    } else {
        name_slot(pairs.drop_last(), n)
    }
}

/// The binding-and-update engine. Owns the axis store, the binding index and
/// the name index; updated once per physical event, queried once per frame.
#[derive(Debug)]
pub struct InputSubsystem {
    /// For computing relative mouse positions.
    window_size: (i64, i64),
    /// Mouse input is relative: the raw position of the previous sample.
    prev_mouse_pos: (i64, i64),
    /// Mouse sensitivity for the X and Y axes, in thousandths.
    mouse_sens: (i64, i64),
    /// Name index: one pair per binding, later pairs shadow earlier ones.
    axis_names: Vec<(String, usize)>,
    /// Binding index: one pair per binding, in binding order.
    axis_bindings: Vec<(Control, usize)>,
    /// The axis store; slots are append-only.
    axes: Vec<AxisState>,
}

impl InputSubsystem {
    /// The axis store as (current, previous) pairs.
    pub closed spec fn axes_view(self) -> Seq<(int, int)> {
        self.axes@.map_values(|a: AxisState| (a.current as int, a.previous as int))
    }

    /// The binding index as (control, slot) pairs, in binding order.
    pub closed spec fn bindings_view(self) -> Seq<(Control, int)> {
        self.axis_bindings@.map_values(|p: (Control, usize)| (p.0, p.1 as int))
    }

    /// The name index as (name, slot) pairs, in binding order.
    pub closed spec fn names_view(self) -> Seq<(Seq<char>, int)> {
        self.axis_names@.map_values(|p: (String, usize)| (p.0@, p.1 as int))
    }

    /// The raw mouse position of the previous mouse sample.
    pub closed spec fn mouse_prev(self) -> (int, int) {
        (self.prev_mouse_pos.0 as int, self.prev_mouse_pos.1 as int)
    }

    /// The configured mouse sensitivity, in thousandths.
    pub closed spec fn sens(self) -> (int, int) {
        (self.mouse_sens.0 as int, self.mouse_sens.1 as int)
    }

    /// The configured window size.
    pub closed spec fn window(self) -> (int, int) {
        (self.window_size.0 as int, self.window_size.1 as int)
    }

    /// The slots the given control feeds, in binding order.
    pub open spec fn slots_of(self, c: Control) -> Seq<int> {
        slots_for(self.bindings_view(), c)
    }

    /// Well-formedness: every indexed slot exists, every stored value and the
    /// mouse state are within the engine's fixed-point ranges.
    pub open spec fn wf(self) -> bool {
        &&& forall|i: int|
            0 <= i < self.bindings_view().len() ==> 0 <= (
            #[trigger] self.bindings_view()[i]).1 < self.axes_view().len()
        &&& forall|i: int|
            0 <= i < self.names_view().len() ==> 0 <= (#[trigger] self.names_view()[i]).1
                < self.axes_view().len()
        &&& forall|i: int|
            0 <= i < self.axes_view().len() ==> -VALUE_LIMIT <= (
            #[trigger] self.axes_view()[i]).0 <= VALUE_LIMIT && -VALUE_LIMIT
                <= self.axes_view()[i].1 <= VALUE_LIMIT
        &&& -POS_LIMIT <= self.mouse_prev().0 <= POS_LIMIT
        &&& -POS_LIMIT <= self.mouse_prev().1 <= POS_LIMIT
        &&& -SENS_LIMIT <= self.sens().0 <= SENS_LIMIT
        &&& -SENS_LIMIT <= self.sens().1 <= SENS_LIMIT
    }

    /// A fresh engine: no axes, no bindings, mouse at the origin.
    pub fn new(mouse_sens: (i64, i64), window_size: (i64, i64)) -> (r: InputSubsystem)
        requires
            -SENS_LIMIT <= mouse_sens.0 <= SENS_LIMIT,
            -SENS_LIMIT <= mouse_sens.1 <= SENS_LIMIT,
        ensures
            r.wf(),
            r.axes_view() == Seq::<(int, int)>::empty(),
            r.bindings_view() == Seq::<(Control, int)>::empty(),
            r.names_view() == Seq::<(Seq<char>, int)>::empty(),
            r.mouse_prev() == (0int, 0int),
            r.sens() == (mouse_sens.0 as int, mouse_sens.1 as int),
            r.window() == (window_size.0 as int, window_size.1 as int),
    {
        let r = InputSubsystem {
            window_size,
            prev_mouse_pos: (0, 0),
            mouse_sens,
            axis_names: Vec::new(),
            axis_bindings: Vec::new(),
            axes: Vec::new(),
        };
        proof {
            assert(r.axes_view() =~= Seq::<(int, int)>::empty());
            assert(r.bindings_view() =~= Seq::<(Control, int)>::empty());
            assert(r.names_view() =~= Seq::<(Seq<char>, int)>::empty());
        }
        r
    }

    /// Allocates a new axis slot (current = previous = 0), records the name
    /// for the slow lookup path, and makes the slot listen to `bound_to`.
    /// Always succeeds; the new slot is appended at the end of the store.
    pub fn add_binding(&mut self, name: String, bound_to: Control) -> (r: Axis)
        requires
            old(self).wf(),
        ensures
            final(self).wf(),
            r.id() == old(self).axes_view().len(),
            final(self).axes_view() == old(self).axes_view().push((0int, 0int)),
            final(self).bindings_view() == old(self).bindings_view().push((bound_to, r.id())),
            final(self).names_view() == old(self).names_view().push((name@, r.id())),
            final(self).slots_of(bound_to) == old(self).slots_of(bound_to).push(r.id()),
            forall|c: Control|
                c != bound_to ==> #[trigger] final(self).slots_of(c) == old(self).slots_of(c),
            name_slot(final(self).names_view(), name@) == Some(r.id()),
            forall|n: Seq<char>|
                n != name@ ==> #[trigger] name_slot(final(self).names_view(), n) == name_slot(
                    old(self).names_view(),
                    n,
                ),
            final(self).mouse_prev() == old(self).mouse_prev(),
            final(self).sens() == old(self).sens(),
            final(self).window() == old(self).window(),
    {
        let index = self.axes.len();
        self.axes.push(AxisState { current: 0, previous: 0 });
        self.axis_names.push((name, index));
        self.axis_bindings.push((bound_to, index));
        proof {
            let pre = *old(self);
            assert(self.axes_view() =~= pre.axes_view().push((0int, 0int)));
            assert(self.bindings_view() =~= pre.bindings_view().push((bound_to, index as int)));
            assert(self.names_view() =~= pre.names_view().push((name@, index as int)));
            assert(self.bindings_view().drop_last() =~= pre.bindings_view());
            assert(self.names_view().drop_last() =~= pre.names_view());
            assert forall|c: Control|
                c != bound_to implies #[trigger] self.slots_of(c) == pre.slots_of(c) by {
                assert(self.bindings_view().last().0 != c);
            }
            assert(self.slots_of(bound_to) == pre.slots_of(bound_to).push(index as int));
        }
        Axis { idx: index }
    }

    /// Makes an already-allocated slot listen to one more control (fan-in).
    /// Binding the same control to the same slot twice is legal: both
    /// bindings apply on an update.
    pub fn bind_existing(&mut self, slot: Axis, control: Control)
        requires
            old(self).wf(),
            0 <= slot.id() < old(self).axes_view().len(),
        ensures
            final(self).wf(),
            final(self).axes_view() == old(self).axes_view(),
            final(self).bindings_view() == old(self).bindings_view().push((control, slot.id())),
            final(self).names_view() == old(self).names_view(),
            final(self).slots_of(control) == old(self).slots_of(control).push(slot.id()),
            forall|c: Control|
                c != control ==> #[trigger] final(self).slots_of(c) == old(self).slots_of(c),
            final(self).mouse_prev() == old(self).mouse_prev(),
            final(self).sens() == old(self).sens(),
            final(self).window() == old(self).window(),
    {
        let idx = slot.index();
        self.axis_bindings.push((control, idx));
        proof {
            let pre = *old(self);
            assert(self.names_view() == pre.names_view());
            assert(self.axes_view() == pre.axes_view());
            assert(self.bindings_view() =~= pre.bindings_view().push((control, idx as int)));
            assert(self.bindings_view().drop_last() =~= pre.bindings_view());
            assert forall|i: int|
                0 <= i < self.bindings_view().len() implies 0 <= (
            #[trigger] self.bindings_view()[i]).1 < self.axes_view().len() by {
                if i < pre.bindings_view().len() {
                    assert(self.bindings_view()[i] == pre.bindings_view()[i]);
                } else {
                    assert(self.bindings_view()[i] == (control, idx as int));
                }
            }
            assert forall|c: Control|
                c != control implies #[trigger] self.slots_of(c) == pre.slots_of(c) by {
                assert(self.bindings_view().last().0 != c);
            }
            assert(self.slots_of(control) == pre.slots_of(control).push(idx as int));
        }
    }

    /// The shared update primitive: for every slot bound to `control`, in
    /// binding order, the slot's current value moves to previous and
    /// `new_val` becomes current. An unbound control is a no-op. The binding
    /// index is kept as a flat list, so one update walks all bindings.
    pub fn update_bindings(&mut self, control: Control, new_val: i64)
        requires
            old(self).wf(),
            -VALUE_LIMIT <= new_val <= VALUE_LIMIT,
        ensures
            final(self).wf(),
            final(self).axes_view() == apply_updates(
                old(self).axes_view(),
                old(self).slots_of(control),
                new_val as int,
            ),
            final(self).bindings_view() == old(self).bindings_view(),
            final(self).names_view() == old(self).names_view(),
            final(self).mouse_prev() == old(self).mouse_prev(),
            final(self).sens() == old(self).sens(),
            final(self).window() == old(self).window(),
    {
        let n = self.axis_bindings.len();
        let mut i: usize = 0;
        while i < n
            invariant
                i <= n,
                n == self.axis_bindings@.len(),
                old(self).wf(),
                -VALUE_LIMIT <= new_val <= VALUE_LIMIT,
                self.wf(),
                self.bindings_view() == old(self).bindings_view(),
                self.names_view() == old(self).names_view(),
                self.mouse_prev() == old(self).mouse_prev(),
                self.sens() == old(self).sens(),
                self.window() == old(self).window(),
                self.axes_view() == apply_updates(
                    old(self).axes_view(),
                    slots_for(old(self).bindings_view().take(i as int), control),
                    new_val as int,
                ),
            decreases n - i,
        {
            let ghost prefix = slots_for(
                old(self).bindings_view().take(i as int),
                control,
            );
            let ghost mid = self.axes_view();
            proof {
                assert(old(self).bindings_view().take(i + 1).drop_last() =~= old(
                    self,
                ).bindings_view().take(i as int));
                assert(old(self).bindings_view().take(i + 1).last() == old(
                    self,
                ).bindings_view()[i as int]);
            }
            let pair = self.axis_bindings[i];
            if pair.0 == control {
                let slot = pair.1;
                proof {
                    assert(self.bindings_view()[i as int] == (pair.0, pair.1 as int));
                    assert(0 <= slot < self.axes_view().len());
                    assert(prefix.push(slot as int).drop_last() =~= prefix);
                }
                let cur = self.axes[slot].current;
                self.axes[slot] = AxisState { current: new_val, previous: cur };
                proof {
                    assert(mid[slot as int].0 == cur);
                    assert(self.axes_view() =~= mid.update(slot as int, (new_val as int, cur as int)));
                    assert(self.axes_view() == apply_one(mid, slot as int, new_val as int));
                    assert(slots_for(old(self).bindings_view().take(i + 1), control) == prefix.push(
                        slot as int,
                    ));
                }
            } else {
                proof {
                    assert(self.bindings_view()[i as int] == (pair.0, pair.1 as int));
                    assert(slots_for(old(self).bindings_view().take(i + 1), control) == prefix);
                }
            }
            i += 1;
        }
        proof {
            assert(old(self).bindings_view().take(n as int) =~= old(self).bindings_view());
        }
    }

    /// Keyboard entry point: a press writes `PRESSED`, a release `RELEASED`,
    /// into every slot bound to the key.
    pub fn update_key(&mut self, key: u64, pressed: bool)
        requires
            old(self).wf(),
        ensures
            final(self).wf(),
            final(self).axes_view() == apply_updates(
                old(self).axes_view(),
                old(self).slots_of(keyboard_ctrl(key)),
                if pressed {
                    PRESSED as int
                } else {
                    RELEASED as int
                },
            ),
            final(self).bindings_view() == old(self).bindings_view(),
            final(self).names_view() == old(self).names_view(),
            final(self).mouse_prev() == old(self).mouse_prev(),
            final(self).sens() == old(self).sens(),
            final(self).window() == old(self).window(),
    {
        let v = if pressed {
            PRESSED
        } else {
            RELEASED
        };
        let c = Control::new(0, CtrlType::Keyboard, key);
        self.update_bindings(c, v);
    }

    /// Mouse-button entry point: same pressed/released scheme as the
    /// keyboard.
    pub fn update_mouse_button(&mut self, button: u64, pressed: bool)
        requires
            old(self).wf(),
        ensures
            final(self).wf(),
            final(self).axes_view() == apply_updates(
                old(self).axes_view(),
                old(self).slots_of(mouse_button_ctrl(button)),
                if pressed {
                    PRESSED as int
                } else {
                    RELEASED as int
                },
            ),
            final(self).bindings_view() == old(self).bindings_view(),
            final(self).names_view() == old(self).names_view(),
            final(self).mouse_prev() == old(self).mouse_prev(),
            final(self).sens() == old(self).sens(),
            final(self).window() == old(self).window(),
    {
        let v = if pressed {
            PRESSED
        } else {
            RELEASED
        };
        let c = Control::new(0, CtrlType::MouseButton, button);
        self.update_bindings(c, v);
    }

    /// Gamepad-button entry point: same pressed/released scheme, with the
    /// gamepad instance in the control identity.
    pub fn update_gamepad_button(&mut self, gamepad: u64, button: u64, pressed: bool)
        requires
            old(self).wf(),
        ensures
            final(self).wf(),
            final(self).axes_view() == apply_updates(
                old(self).axes_view(),
                old(self).slots_of(gamepad_button_ctrl(gamepad, button)),
                if pressed {
                    PRESSED as int
                } else {
                    RELEASED as int
                },
            ),
            final(self).bindings_view() == old(self).bindings_view(),
            final(self).names_view() == old(self).names_view(),
            final(self).mouse_prev() == old(self).mouse_prev(),
            final(self).sens() == old(self).sens(),
            final(self).window() == old(self).window(),
    {
        let v = if pressed {
            PRESSED
        } else {
            RELEASED
        };
        let c = Control::new(gamepad, CtrlType::GPButton, button);
        self.update_bindings(c, v);
    }

    /// Gamepad-axis entry point: the raw reported value is written through
    /// unmodified (no dead zone or curve in this layer).
    pub fn update_gamepad_axis(&mut self, gamepad: u64, axis: u64, value: i64)
        requires
            old(self).wf(),
            -VALUE_LIMIT <= value <= VALUE_LIMIT,
        ensures
            final(self).wf(),
            final(self).axes_view() == apply_updates(
                old(self).axes_view(),
                old(self).slots_of(gamepad_axis_ctrl(gamepad, axis)),
                value as int,
            ),
            final(self).bindings_view() == old(self).bindings_view(),
            final(self).names_view() == old(self).names_view(),
            final(self).mouse_prev() == old(self).mouse_prev(),
            final(self).sens() == old(self).sens(),
            final(self).window() == old(self).window(),
    {
        let c = Control::new(gamepad, CtrlType::GPAxis, axis);
        self.update_bindings(c, value);
    }

    /// Mouse-motion entry point. Both motion axes are updated against the
    /// same prior raw position: the X slots receive
    /// `(x - prev.0) * sens.0`, then the Y slots `(y - prev.1) * sens.1`,
    /// and only then does the tracked raw position become `(x, y)`.
    pub fn update_mouse_pos(&mut self, x: i64, y: i64)
        requires
            old(self).wf(),
            -POS_LIMIT <= x <= POS_LIMIT,
            -POS_LIMIT <= y <= POS_LIMIT,
        ensures
            final(self).wf(),
            final(self).axes_view() == apply_updates(
                apply_updates(
                    old(self).axes_view(),
                    old(self).slots_of(mouse_axis_ctrl(MouseAxis::X)),
                    (x - old(self).mouse_prev().0) * old(self).sens().0,
                ),
                old(self).slots_of(mouse_axis_ctrl(MouseAxis::Y)),
                (y - old(self).mouse_prev().1) * old(self).sens().1,
            ),
            final(self).mouse_prev() == (x as int, y as int),
            final(self).bindings_view() == old(self).bindings_view(),
            final(self).names_view() == old(self).names_view(),
            final(self).sens() == old(self).sens(),
            final(self).window() == old(self).window(),
    {
        let px = self.prev_mouse_pos.0;
        let py = self.prev_mouse_pos.1;
        let sx = self.mouse_sens.0;
        let sy = self.mouse_sens.1;
        proof {
            lemma_mul_bounds(x - px, sx as int, 2 * POS_LIMIT as int, SENS_LIMIT as int);
            lemma_mul_bounds(y - py, sy as int, 2 * POS_LIMIT as int, SENS_LIMIT as int);
        }
        let dx = (x - px) * sx;
        let dy = (y - py) * sy;
        let cx = Control::new(0, CtrlType::MouseAxis, 0);
        let cy = Control::new(0, CtrlType::MouseAxis, 1);
        proof {
            assert(cx == mouse_axis_ctrl(MouseAxis::X));
            assert(cy == mouse_axis_ctrl(MouseAxis::Y));
        }
        self.update_bindings(cx, dx);
        self.update_bindings(cy, dy);
        self.prev_mouse_pos = (x, y);
    }

    /// The name-index lookup: the slot most recently bound under `name`, or
    /// `None` if the name was never bound. Linear in the number of bindings;
    /// callers should cache the handle.
    pub fn try_get_index(&self, name: &String) -> (r: Option<Axis>)
        requires
            self.wf(),
        ensures
            match r {
                Some(a) => name_slot(self.names_view(), name@) == Some(a.id()) && 0 <= a.id()
                    < self.axes_view().len(),
                None => name_slot(self.names_view(), name@) is None,
            },
    {
        let n = self.axis_names.len();
        let mut i: usize = n;
        proof {
            assert(self.names_view().take(n as int) =~= self.names_view());
        }
        while i > 0
            invariant
                i <= n,
                n == self.axis_names@.len(),
                self.wf(),
                name_slot(self.names_view(), name@) == name_slot(
                    self.names_view().take(i as int),
                    name@,
                ),
            decreases i,
        {
            i = i - 1;
            proof {
                assert(self.names_view().take(i + 1).drop_last() =~= self.names_view().take(
                    i as int,
                ));
                assert(self.names_view().take(i + 1).last() == self.names_view()[i as int]);
            }
            if self.axis_names[i].0 == *name {
                let slot = self.axis_names[i].1;
                proof {
                    assert(self.names_view()[i as int] == (self.axis_names@[i as int].0@, slot as int));
                    assert(name_slot(self.names_view().take(i + 1), name@) == Some(slot as int));
                }
                return Some(Axis { idx: slot });
            }
            proof {
                assert(self.names_view()[i as int].0 != name@);
            }
        }
        proof {
            assert(self.names_view().take(0) =~= Seq::<(Seq<char>, int)>::empty());
        }
        None
    }

    /// The slow lookup path: resolves a name that is known to be bound.
    /// Always cache the returned handle; the index-based queries are O(1),
    /// this is not.
    pub fn get_index(&self, name: &String) -> (r: Axis)
        requires
            self.wf(),
            name_slot(self.names_view(), name@) is Some,
        ensures
            name_slot(self.names_view(), name@) == Some(r.id()),
            0 <= r.id() < self.axes_view().len(),
    {
        self.try_get_index(name).unwrap()
    }

    /// How many axis slots have been allocated.
    pub fn axis_count(&self) -> (r: usize)
        ensures
            r as int == self.axes_view().len(),
    {
        self.axes.len()
    }

    /// The value set by the most recent update to the slot (0 if none).
    pub fn get(&self, index: usize) -> (r: i64)
        requires
            index < self.axes_view().len(),
        ensures
            r as int == self.axes_view()[index as int].0,
    {
        self.axes[index].current
    }

    /// The value the slot held immediately before its most recent update
    /// (0 if the slot was never updated).
    pub fn get_prev(&self, index: usize) -> (r: i64)
        requires
            index < self.axes_view().len(),
        ensures
            r as int == self.axes_view()[index as int].1,
    {
        self.axes[index].previous
    }

    /// Exactly `get(index) - get_prev(index)`.
    pub fn get_delta(&self, index: usize) -> (r: i64)
        requires
            self.wf(),
            index < self.axes_view().len(),
        ensures
            r as int == self.axes_view()[index as int].0 - self.axes_view()[index as int].1,
    {
        self.get(index) - self.get_prev(index)
    }

    /// True iff the slot's current value is strictly above the threshold
    /// (the caller's, or `DOWN_THRESHOLD` when none is given).
    pub fn get_down(&self, index: usize, threshold: Option<i64>) -> (r: bool)
        requires
            index < self.axes_view().len(),
        ensures
            r <==> self.axes_view()[index as int].0 > threshold_of(threshold),
    {
        let t = match threshold {
            Some(t) => t,
            None => DOWN_THRESHOLD,
        };
        self.get(index) > t
    }
}

/// The threshold `get_down` compares against: the caller's, or the default.
pub open spec fn threshold_of(threshold: Option<i64>) -> int {
    match threshold {
        Some(t) => t as int,
        None => DOWN_THRESHOLD as int,
    }
}

/// Bounded factors have a bounded product.
proof fn lemma_mul_bounds(a: int, b: int, aa: int, bb: int)
    by (nonlinear_arith)
    requires
        0 <= aa,
        0 <= bb,
        -aa <= a <= aa,
        -bb <= b <= bb,
    ensures
        -(aa * bb) <= a * b <= aa * bb,
{
}

/// Applying an event's updates never changes how many axes there are.
pub proof fn lemma_apply_updates_len(axes: Seq<(int, int)>, slots: Seq<int>, v: int)
    ensures
        apply_updates(axes, slots, v).len() == axes.len(),
    decreases slots.len(),
{
    if slots.len() > 0 {
        lemma_apply_updates_len(axes, slots.drop_last(), v);
    }
}

/// A slot that an update list never names keeps its state unchanged.
pub proof fn lemma_update_absent(axes: Seq<(int, int)>, slots: Seq<int>, v: int, s: int)
    requires
        0 <= s < axes.len(),
        occurrences(slots, s) == 0,
    ensures
        apply_updates(axes, slots, v)[s] == axes[s],
    decreases slots.len(),
{
    if slots.len() > 0 {
        lemma_update_absent(axes, slots.drop_last(), v, s);
        lemma_apply_updates_len(axes, slots.drop_last(), v);
    }
}

/// Double-buffering: a slot named exactly once by an update list ends with
/// the new value as current and its prior current value as previous.
pub proof fn lemma_update_once(axes: Seq<(int, int)>, slots: Seq<int>, v: int, s: int)
    requires
        0 <= s < axes.len(),
        occurrences(slots, s) == 1,
    ensures
        apply_updates(axes, slots, v)[s] == (v, axes[s].0),
    decreases slots.len(),
{
    lemma_apply_updates_len(axes, slots.drop_last(), v);
    if slots.last() == s {
        lemma_update_absent(axes, slots.drop_last(), v, s);
    } else {
        lemma_update_once(axes, slots.drop_last(), v, s);
    }
}

/// Law: after an update event to a control that feeds a slot exactly once —
/// as a slot fed by one `add_binding` call is — the slot's current value is
/// the event's value, and its previous value is exactly the current value it
/// held before the event.
pub proof fn lemma_double_buffer(
    pre: InputSubsystem,
    post: InputSubsystem,
    c: Control,
    v: int,
    s: int,
)
    requires
        post.axes_view() == apply_updates(pre.axes_view(), pre.slots_of(c), v),
        0 <= s < pre.axes_view().len(),
        occurrences(pre.slots_of(c), s) == 1,
    ensures
        post.axes_view()[s].0 == v,
        post.axes_view()[s].1 == pre.axes_view()[s].0,
{
    lemma_update_once(pre.axes_view(), pre.slots_of(c), v, s);
}

/// Law (fan-out): one update event to a control bound once to each of two
/// distinct slots updates both slots identically and independently.
pub proof fn lemma_fan_out(
    pre: InputSubsystem,
    post: InputSubsystem,
    c: Control,
    v: int,
    s1: int,
    s2: int,
)
    requires
        post.axes_view() == apply_updates(pre.axes_view(), pre.slots_of(c), v),
        0 <= s1 < pre.axes_view().len(),
        0 <= s2 < pre.axes_view().len(),
        s1 != s2,
        occurrences(pre.slots_of(c), s1) == 1,
        occurrences(pre.slots_of(c), s2) == 1,
    ensures
        post.axes_view()[s1] == (v, pre.axes_view()[s1].0),
        post.axes_view()[s2] == (v, pre.axes_view()[s2].0),
{
    lemma_update_once(pre.axes_view(), pre.slots_of(c), v, s1);
    lemma_update_once(pre.axes_view(), pre.slots_of(c), v, s2);
}

/// Law: an update event to an unbound control changes no slot at all.
pub proof fn lemma_unbound_update_noop(pre: InputSubsystem, post: InputSubsystem, c: Control, v: int)
    requires
        post.axes_view() == apply_updates(pre.axes_view(), pre.slots_of(c), v),
        pre.slots_of(c).len() == 0,
    ensures
        post.axes_view() == pre.axes_view(),
{
}

/// Law: an update event leaves every slot its control does not feed
/// untouched.
pub proof fn lemma_unrelated_slot_unchanged(
    pre: InputSubsystem,
    post: InputSubsystem,
    c: Control,
    v: int,
    s: int,
)
    requires
        post.axes_view() == apply_updates(pre.axes_view(), pre.slots_of(c), v),
        0 <= s < pre.axes_view().len(),
        occurrences(pre.slots_of(c), s) == 0,
    ensures
        post.axes_view()[s] == pre.axes_view()[s],
{
    lemma_update_absent(pre.axes_view(), pre.slots_of(c), v, s);
}

/// A slot named at least once by an update list ends with the new value as
/// its current value, however often it is named.
pub proof fn lemma_update_current(axes: Seq<(int, int)>, slots: Seq<int>, v: int, s: int)
    requires
        0 <= s < axes.len(),
        occurrences(slots, s) >= 1,
    ensures
        apply_updates(axes, slots, v)[s].0 == v,
    decreases slots.len(),
{
    lemma_apply_updates_len(axes, slots.drop_last(), v);
    if slots.last() == s {
    } else {
        lemma_update_current(axes, slots.drop_last(), v, s);
    }
}

} // verus!
