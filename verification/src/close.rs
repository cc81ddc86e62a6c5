//! What becomes of a close request, and of a reactivation while no window
//! is shown.

use crate::config::{LaunchConfig, Platform};
use crate::reaction::{Reaction, ReactionView};
use crate::window::{primary_label, primary_label_text, Step, WindowOp, WindowState};
use vstd::prelude::*;

verus! {

/// Milliseconds that macOS is given to finish leaving fullscreen before the
/// window is hidden.
pub const FULLSCREEN_EXIT_DELAY: u64 = 900;

/// The exit code of a process that ends on a close request.
pub const CLOSE_EXIT_CODE: i32 = 0;

/// The steps that put a window into the background. A fullscreen window
/// leaves fullscreen first on macOS and on Linux: macOS then waits for the
/// animation to end, Linux asks for the focus again. macOS hides without
/// minimizing; every other platform minimizes, then hides.
pub open spec fn hide_steps_of(platform: Platform, fullscreen: bool) -> Seq<Step> {
    match platform {
        Platform::MacOs => if fullscreen {
            seq![
                Step::Apply(WindowOp::ExitFullscreen),
                Step::Wait(FULLSCREEN_EXIT_DELAY),
                Step::Apply(WindowOp::Hide),
            ]
        } else {
            seq![Step::Apply(WindowOp::Hide)]
        },
        Platform::Linux => if fullscreen {
            seq![
                Step::Apply(WindowOp::ExitFullscreen),
                Step::Apply(WindowOp::Focus),
                Step::Apply(WindowOp::Minimize),
                Step::Apply(WindowOp::Hide),
            ]
        } else {
            seq![Step::Apply(WindowOp::Minimize), Step::Apply(WindowOp::Hide)]
        },
        Platform::Other => seq![Step::Apply(WindowOp::Minimize), Step::Apply(WindowOp::Hide)],
    }
}

/// The steps that put a window into the background, for a window that is
/// fullscreen or not at the time of the request.
pub fn hide_steps(platform: Platform, fullscreen: bool) -> (steps: Vec<Step>)
    ensures
        steps@ == hide_steps_of(platform, fullscreen),
{
    let mut steps: Vec<Step> = Vec::new();
    match platform {
        Platform::MacOs => {
            if fullscreen {
                steps.push(Step::Apply(WindowOp::ExitFullscreen));
                steps.push(Step::Wait(FULLSCREEN_EXIT_DELAY));
            }
        },
        Platform::Linux => {
            if fullscreen {
                steps.push(Step::Apply(WindowOp::ExitFullscreen));
                steps.push(Step::Apply(WindowOp::Focus));
            }
            steps.push(Step::Apply(WindowOp::Minimize));
        },
        Platform::Other => {
            steps.push(Step::Apply(WindowOp::Minimize));
        },
    }
    steps.push(Step::Apply(WindowOp::Hide));
    assert(steps@ =~= hide_steps_of(platform, fullscreen));
    steps
}

/// The reaction to a close request on the window `label`, which is
/// fullscreen or not at that time: without `hide_on_close` the process
/// ends; with it the window goes into the background.
pub open spec fn close_reaction_of(
    config: LaunchConfig,
    platform: Platform,
    label: Seq<char>,
    fullscreen: bool,
) -> ReactionView {
    if config.hide_on_close {
        ReactionView::HideWindow { label, steps: hide_steps_of(platform, fullscreen) }
    } else {
        ReactionView::Terminate { code: CLOSE_EXIT_CODE }
    }
}

/// Decides a close request on the window `label`.
pub fn on_close_requested(
    config: &LaunchConfig,
    platform: Platform,
    label: &str,
    fullscreen: bool,
) -> (reaction: Reaction)
    ensures
        reaction@ == close_reaction_of(*config, platform, label@, fullscreen),
{
    if config.hide_on_close {
        Reaction::HideWindow {
            label: String::from_str(label),
            steps: hide_steps(platform, fullscreen),
        }
    } else {
        Reaction::Terminate { code: CLOSE_EXIT_CODE }
    }
}

/// The steps that bring a window back on reactivation.
pub open spec fn reopen_steps() -> Seq<Step> {
    seq![Step::Apply(WindowOp::Show), Step::Apply(WindowOp::Focus)]
}

/// The reaction to a reactivation of the application: on macOS, while no
/// window is shown, the primary window is shown and focused.
pub open spec fn reopen_reaction_of(platform: Platform, has_visible_windows: bool) -> ReactionView {
    if platform == Platform::MacOs && !has_visible_windows {
        ReactionView::RaiseWindow { label: primary_label_text(), steps: reopen_steps() }
    } else {
        ReactionView::Ignore
    }
}

/// Decides a reactivation of the application.
pub fn on_reopen(platform: Platform, has_visible_windows: bool) -> (reaction: Reaction)
    ensures
        reaction@ == reopen_reaction_of(platform, has_visible_windows),
{
    if platform == Platform::MacOs && !has_visible_windows {
        let mut steps: Vec<Step> = Vec::new();
        steps.push(Step::Apply(WindowOp::Show));
        steps.push(Step::Apply(WindowOp::Focus));
        assert(steps@ =~= reopen_steps());
        Reaction::RaiseWindow { label: String::from_str(primary_label()), steps }
    } else {
        Reaction::Ignore
    }
}

/// The close policy. Without `hide_on_close` a close request ends the
/// process with exit code 0 and neither hides nor minimizes anything. With
/// it a close request never ends the process and always suppresses the
/// native close, on every platform and whatever the window's state.
pub proof fn lemma_close_policy(
    config: LaunchConfig,
    platform: Platform,
    label: Seq<char>,
    fullscreen: bool,
)
    ensures
        !config.hide_on_close ==> close_reaction_of(config, platform, label, fullscreen)
            == (ReactionView::Terminate { code: 0 }),
        config.hide_on_close ==> close_reaction_of(config, platform, label, fullscreen)
            is HideWindow,
        config.hide_on_close ==> close_reaction_of(config, platform, label, fullscreen)
            == (ReactionView::HideWindow { label, steps: hide_steps_of(platform, fullscreen) }),
{
}

/// The steps of a close request leave the window hidden and without focus.
/// Where `fullscreen` is what the window was, macOS and Linux leave it out of
/// fullscreen. macOS does not touch whether it is minimized; the others leave
/// it minimized.
pub proof fn lemma_hide_steps(platform: Platform, before: WindowState)
    ensures
        ({
            let hidden = before.after_steps(hide_steps_of(platform, before.fullscreen));
            &&& !hidden.visible
            &&& !hidden.focused
            &&& platform != Platform::Other ==> !hidden.fullscreen
            &&& platform == Platform::Other ==> hidden.fullscreen == before.fullscreen
            &&& platform == Platform::MacOs ==> hidden.minimized == before.minimized
            &&& platform != Platform::MacOs ==> hidden.minimized
        }),
{
    reveal_with_fuel(WindowState::after_steps, 5);
    let steps = hide_steps_of(platform, before.fullscreen);
    let s1 = steps.drop_first();
    if s1.len() > 0 {
        let s2 = s1.drop_first();
        if s2.len() > 0 {
            let s3 = s2.drop_first();
            assert(s3.len() == 0 || s3.drop_first().len() == 0);
        }
    }
}

/// The steps of a reactivation leave the window shown, and focused unless it
/// is minimized.
pub proof fn lemma_reopen_steps(before: WindowState)
    ensures
        before.after_steps(reopen_steps()).visible,
        !before.minimized ==> before.after_steps(reopen_steps()).focused,
{
    reveal_with_fuel(WindowState::after_steps, 3);
    assert(reopen_steps().drop_first().drop_first().len() == 0);
}

} // verus!
