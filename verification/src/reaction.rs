//! What the shell is told to do about an event.

use crate::window::Step;
use vstd::prelude::*;

verus! {

/// The shell's part in answer to one event. The policy decides; the shell
/// performs, and drops failures of window operations without a retry.
#[derive(Debug, PartialEq, Eq)]
pub enum Reaction {
    /// Nothing is done.
    Ignore,
    /// The process ends at once with this exit code. No window is hidden or
    /// minimized first, and no other handler runs.
    Terminate { code: i32 },
    /// The native close of the window `label` is suppressed, the process
    /// stays alive, and the steps run on that window in a task of their own.
    HideWindow { label: String, steps: Vec<Step> },
    /// A window `label` is created at `url`, with the title `title` and the
    /// configured width and height, not the size that the primary window has
    /// at the time. Where that succeeds the steps are performed on it; where
    /// it fails nothing more happens and nothing is reported.
    OpenWindow { label: String, url: String, title: String, steps: Vec<Step> },
    /// The steps are performed on the window `label`, if there is one.
    RaiseWindow { label: String, steps: Vec<Step> },
}

/// A `Reaction` with its texts and steps as sequences.
pub enum ReactionView {
    Ignore,
    Terminate { code: i32 },
    HideWindow { label: Seq<char>, steps: Seq<Step> },
    OpenWindow { label: Seq<char>, url: Seq<char>, title: Seq<char>, steps: Seq<Step> },
    RaiseWindow { label: Seq<char>, steps: Seq<Step> },
}

impl View for Reaction {
    type V = ReactionView;

    open spec fn view(&self) -> ReactionView {
        match self {
            Reaction::Ignore => ReactionView::Ignore,
            Reaction::Terminate { code } => ReactionView::Terminate { code: *code },
            Reaction::HideWindow { label, steps } => ReactionView::HideWindow {
                label: label@,
                steps: steps@,
            },
            Reaction::OpenWindow { label, url, title, steps } => ReactionView::OpenWindow {
                label: label@,
                url: url@,
                title: title@,
                steps: steps@,
            },
            Reaction::RaiseWindow { label, steps } => ReactionView::RaiseWindow {
                label: label@,
                steps: steps@,
            },
        }
    }
}

/// The view of each reaction of `reactions`, in order.
pub open spec fn views(reactions: Seq<Reaction>) -> Seq<ReactionView> {
    reactions.map_values(|r: Reaction| r@)
}

} // verus!
