//! Window labels, the counter that numbers secondary windows, and the
//! operations that the shell performs on a window.

use crate::text::{append_decimal, decimal, lemma_decimal_injective, lemma_decimal_len};
use vstd::prelude::*;

verus! {

/// The label of the primary window, as text.
pub open spec fn primary_label_text() -> Seq<char> {
    "pake"@
}

/// The label of the secondary window with the number `id`, as text.
pub open spec fn secondary_label_text(id: nat) -> Seq<char> {
    "pake-"@ + decimal(id)
}

/// The fixed label of the primary window, by which it is looked up.
pub fn primary_label() -> (label: &'static str)
    ensures
        label@ == primary_label_text(),
{
    "pake"
}

/// The label of the secondary window with the number `id`.
pub fn secondary_label(id: usize) -> (label: String)
    ensures
        label@ == secondary_label_text(id as nat),
{
    let mut label = String::from_str("pake-");
    append_decimal(&mut label, id);
    label
}

/// Secondary windows with different numbers have different labels.
pub proof fn lemma_secondary_labels_distinct(a: nat, b: nat)
    requires
        a != b,
    ensures
        secondary_label_text(a) != secondary_label_text(b),
{
    let prefix = "pake-"@;
    if secondary_label_text(a) == secondary_label_text(b) {
        assert(secondary_label_text(a).skip(prefix.len() as int) =~= decimal(a));
        assert(secondary_label_text(b).skip(prefix.len() as int) =~= decimal(b));
        lemma_decimal_injective(a, b);
    }
}

/// No secondary window carries the label of the primary window.
pub proof fn lemma_secondary_label_not_primary(id: nat)
    ensures
        secondary_label_text(id) != primary_label_text(),
{
    reveal_strlit("pake");
    reveal_strlit("pake-");
    lemma_decimal_len(id);
    assert(secondary_label_text(id).len() > primary_label_text().len());
}

/// Numbers secondary windows. The first number given out is 1; each number
/// given out is one more than the one before, and after `usize::MAX` the
/// count starts again at 0.
#[derive(Debug, PartialEq, Eq)]
pub struct WindowCounter {
    next: usize,
}

impl WindowCounter {
    /// The number that the next secondary window gets.
    pub closed spec fn upcoming(&self) -> nat {
        self.next as nat
    }

    /// A counter that has given out no number yet.
    pub fn new() -> (counter: WindowCounter)
        ensures
            counter.upcoming() == 1,
    {
        WindowCounter { next: 1 }
    }

    /// A counter that gives out `next` first.
    pub fn starting_at(next: usize) -> (counter: WindowCounter)
        ensures
            counter.upcoming() == next,
    {
        WindowCounter { next }
    }

    /// The number that the next secondary window gets.
    pub fn peek(&self) -> (next: usize)
        ensures
            next == self.upcoming(),
    {
        self.next
    }

    /// Gives out the next number.
    pub fn allocate(&mut self) -> (id: usize)
        ensures
            id == old(self).upcoming(),
            final(self).upcoming() == following(old(self).upcoming()),
    {
        let id = self.next;
        self.next = if id == usize::MAX {
            0
        } else {
            id + 1
        };
        id
    }
}

/// The number given out after `id`.
pub open spec fn following(id: nat) -> nat {
    if id >= usize::MAX {
        0
    } else {
        id + 1
    }
}

/// An operation on one window.
#[derive(Clone, Copy, Debug, PartialEq, Eq, Structural)]
pub enum WindowOp {
    Show,
    Hide,
    Minimize,
    Unminimize,
    Focus,
    EnterFullscreen,
    ExitFullscreen,
}

/// One step of a task that works on one window: an operation on the window,
/// or a pause of so many milliseconds before the next step.
#[derive(Clone, Copy, Debug, PartialEq, Eq, Structural)]
pub enum Step {
    Wait(u64),
    Apply(WindowOp),
}

/// A model of one window, over which the effect of steps is stated: whether
/// the window is shown, has the input focus, is minimized, is fullscreen.
#[derive(Clone, Copy, Debug, PartialEq, Eq, Structural)]
pub struct WindowState {
    pub visible: bool,
    pub focused: bool,
    pub minimized: bool,
    pub fullscreen: bool,
}

impl WindowState {
    /// Only a window that is shown and not minimized can have the focus.
    pub open spec fn consistent(self) -> bool {
        self.focused ==> self.visible && !self.minimized
    }

    /// The window after `op`. Hiding or minimizing a window takes the focus
    /// from it; a window that is hidden or minimized does not take the focus.
    pub open spec fn after(self, op: WindowOp) -> WindowState {
        match op {
            WindowOp::Show => WindowState { visible: true, ..self },
            WindowOp::Hide => WindowState { visible: false, focused: false, ..self },
            WindowOp::Minimize => WindowState { minimized: true, focused: false, ..self },
            WindowOp::Unminimize => WindowState { minimized: false, ..self },
            WindowOp::Focus => WindowState {
                focused: self.visible && !self.minimized,
                ..self
            },
            WindowOp::EnterFullscreen => WindowState { fullscreen: true, ..self },
            WindowOp::ExitFullscreen => WindowState { fullscreen: false, ..self },
        }
    }

    /// The window after the steps of `steps`, in order. A pause changes
    /// nothing.
    pub open spec fn after_steps(self, steps: Seq<Step>) -> WindowState
        decreases steps.len(),
    {
        if steps.len() == 0 {
            self
        } else {
            match steps[0] {
                Step::Wait(_) => self.after_steps(steps.drop_first()),
                Step::Apply(op) => self.after(op).after_steps(steps.drop_first()),
            }
        }
    }

    /// A window as it is created: hidden, without focus, neither minimized
    /// nor fullscreen.
    pub fn created() -> (state: WindowState)
        ensures
            state == (WindowState {
                visible: false,
                focused: false,
                minimized: false,
                fullscreen: false,
            }),
            state.consistent(),
    {
        WindowState { visible: false, focused: false, minimized: false, fullscreen: false }
    }

    /// Performs `op` on the window.
    pub fn apply(&mut self, op: WindowOp)
        ensures
            *final(self) == old(self).after(op),
            old(self).consistent() ==> final(self).consistent(),
    {
        match op {
            WindowOp::Show => {
                self.visible = true;
            },
            WindowOp::Hide => {
                self.visible = false;
                self.focused = false;
            },
            WindowOp::Minimize => {
                self.minimized = true;
                self.focused = false;
            },
            WindowOp::Unminimize => {
                self.minimized = false;
            },
            WindowOp::Focus => {
                self.focused = self.visible && !self.minimized;
            },
            WindowOp::EnterFullscreen => {
                self.fullscreen = true;
            },
            WindowOp::ExitFullscreen => {
                self.fullscreen = false;
            },
        }
    }

    /// Performs the steps of `steps` on the window, in order.
    pub fn apply_steps(&mut self, steps: &[Step])
        ensures
            *final(self) == old(self).after_steps(steps@),
            old(self).consistent() ==> final(self).consistent(),
    {
        let mut i: usize = 0;
        assert(steps@.skip(0) =~= steps@);
        while i < steps.len()
            invariant
                i <= steps.len(),
                self.after_steps(steps@.skip(i as int)) == old(self).after_steps(steps@),
                old(self).consistent() ==> self.consistent(),
            decreases steps.len() - i,
        {
            proof {
                assert(steps@.skip(i as int).drop_first() =~= steps@.skip(i + 1));
            }
            match steps[i] {
                Step::Wait(_) => {},
                Step::Apply(op) => {
                    self.apply(op);
                },
            }
            i += 1;
        }
    }
}

/// Showing, focusing or un-minimizing a window that is shown and has the
/// focus changes nothing: it stays shown and focused.
pub proof fn lemma_raising_is_idempotent(state: WindowState, op: WindowOp)
    requires
        state.consistent(),
        state.visible,
        state.focused,
        op == WindowOp::Show || op == WindowOp::Focus || op == WindowOp::Unminimize,
    ensures
        state.after(op) == state,
        state.after(op).visible,
        state.after(op).focused,
{
}

/// Every operation tolerates repetition: performed twice in a row it leaves
/// the window as it is after the first time.
pub proof fn lemma_repeating_changes_nothing(state: WindowState, op: WindowOp)
    ensures
        state.after(op).after(op) == state.after(op),
{
}

/// Every operation keeps a consistent window consistent.
pub proof fn lemma_after_consistent(state: WindowState, op: WindowOp)
    requires
        state.consistent(),
    ensures
        state.after(op).consistent(),
{
}

} // verus!
