//! State shared between the overlay UI and the editor: change-tracked
//! widget values, handed out exactly once per change, and the pointer /
//! keyboard capture flags that gate camera interaction.

use vstd::prelude::*;

use vstd::std_specs::cmp::PartialEqSpec;

verus! {

/// A value edited by overlay widgets. It remembers the last value the
/// application applied, so that `on_change` reports each edit exactly
/// once and the editor can rebuild only what really changed.
pub struct UiValue<T> where T: PartialEq + Copy {
    prev: T,
    curr: T,
}

impl<T> UiValue<T> where T: PartialEq + Copy {
    /// The value as the widgets last left it.
    pub closed spec fn current(self) -> T {
        self.curr
    }

    /// The value as the application last applied it.
    pub closed spec fn applied(self) -> T {
        self.prev
    }

    pub fn new(value: T) -> (r: UiValue<T>)
        ensures
            r.current() == value,
            r.applied() == value,
    {
        UiValue { prev: value, curr: value }
    }

    /// Read the current value without consuming the pending change.
    pub fn get(&self) -> (r: T)
        ensures
            r == self.current(),
    {
        self.curr
    }

    /// Record an edit coming from a widget.
    pub fn set(&mut self, value: T)
        ensures
            final(self).current() == value,
            final(self).applied() == old(self).applied(),
    {
        self.curr = value;
    }

    /// The new value, exactly once after it changed: `Some` marks the
    /// value applied, so the next call reports nothing until the next
    /// edit. The exactness of "changed" is stated through `T`'s equality
    /// specification and so holds for every type whose `==` obeys it.
    pub fn on_change(&mut self) -> (r: Option<&T>)
        ensures
            final(self).current() == old(self).current(),
            match r {
                Some(v) => *v == old(self).current() && final(self).applied() == old(
                    self,
                ).current(),
                None => final(self).applied() == old(self).applied(),
            },
            T::obeys_eq_spec() ==> (r is Some <==> !old(self).current().eq_spec(
                &old(self).applied(),
            )),
    {
        if self.curr != self.prev {
            self.prev = self.curr;
            Some(&self.curr)
        } else {
            None
        }
    }
}

/// Which input classes the overlay UI currently claims: while it wants
/// the pointer or the keyboard, the editor must not feed that input to
/// the camera.
pub struct UiIo {
    /// The overlay wants pointer input this frame.
    pub wants_mouse: bool,
    /// The overlay wants keyboard input this frame.
    pub wants_keyboard: bool,
}

impl UiIo {
    pub fn new(wants_mouse: bool, wants_keyboard: bool) -> (r: UiIo)
        ensures
            r.wants_mouse == wants_mouse,
            r.wants_keyboard == wants_keyboard,
    {
        UiIo { wants_mouse, wants_keyboard }
    }
}

} // verus!
