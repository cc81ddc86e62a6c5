//! What becomes of a second launch while the first process is alive.
//!
//! The launch is handed to the running process with its arguments. Where
//! they hold a URL on the configured host, a secondary window is opened
//! there under a label of its own; else the primary window is brought back.

use crate::config::LaunchConfig;
use crate::reaction::{Reaction, ReactionView};
use crate::url_match::{extract_url_arg, find_allowed_url, texts};
use crate::window::{
    following, primary_label, primary_label_text, secondary_label, secondary_label_text, Step,
    WindowCounter, WindowOp, WindowState,
};
use url::Url;
use vstd::prelude::*;

verus! {

/// What `Url::parse` of the `url` crate makes of `input`: the serialization
/// of the parsed URL, or `None` where the parser refuses `input`.
pub uninterp spec fn parsed_url(input: Seq<char>) -> Option<Seq<char>>;

/// Parses `input` with `Url::parse` of the `url` crate and hands back the
/// URL's serialization, which the crate's `From<Url> for String` gives.
/// Nothing is proved of the parser: the result is `parsed_url` of the input
/// by this contract alone.
#[verifier::external_body]
fn parse_url(input: &str) -> (parsed: Option<String>)
    ensures
        parsed.deep_view() == parsed_url(input@),
{
    match Url::parse(input) {
        Ok(url) => Some(String::from(url)),
        Err(_) => None,
    }
}

/// The steps performed on a secondary window once it is created.
pub open spec fn open_steps() -> Seq<Step> {
    seq![Step::Apply(WindowOp::Show), Step::Apply(WindowOp::Focus)]
}

/// The steps that bring the primary window back.
pub open spec fn raise_steps() -> Seq<Step> {
    seq![
        Step::Apply(WindowOp::Unminimize),
        Step::Apply(WindowOp::Show),
        Step::Apply(WindowOp::Focus),
    ]
}

/// The reaction for the secondary window number `id`, given what the parser
/// made of the URL found: a window at the parsed URL, with an empty title
/// that the page is left to set, or nothing where the URL did not parse.
pub open spec fn secondary_reaction_of(id: nat, parsed: Option<Seq<char>>) -> ReactionView {
    match parsed {
        Some(url) => ReactionView::OpenWindow {
            label: secondary_label_text(id),
            url,
            title: Seq::empty(),
            steps: open_steps(),
        },
        None => ReactionView::Ignore,
    }
}

/// The reaction for the secondary window number `id`, given what the parser
/// made of the URL found.
pub fn secondary_reaction(id: usize, parsed: Option<String>) -> (reaction: Reaction)
    ensures
        reaction@ == secondary_reaction_of(id as nat, parsed.deep_view()),
{
    match parsed {
        Some(url) => {
            let mut steps: Vec<Step> = Vec::new();
            steps.push(Step::Apply(WindowOp::Show));
            steps.push(Step::Apply(WindowOp::Focus));
            assert(steps@ =~= open_steps());
            Reaction::OpenWindow { label: secondary_label(id), url, title: String::new(), steps }
        },
        None => Reaction::Ignore,
    }
}

/// The reaction that brings the primary window back.
pub open spec fn raise_primary_reaction() -> ReactionView {
    ReactionView::RaiseWindow { label: primary_label_text(), steps: raise_steps() }
}

/// Brings the primary window back, if there is one: un-minimized, shown and
/// focused.
pub fn raise_primary() -> (reaction: Reaction)
    ensures
        reaction@ == raise_primary_reaction(),
{
    let mut steps: Vec<Step> = Vec::new();
    steps.push(Step::Apply(WindowOp::Unminimize));
    steps.push(Step::Apply(WindowOp::Show));
    steps.push(Step::Apply(WindowOp::Focus));
    assert(steps@ =~= raise_steps());
    Reaction::RaiseWindow { label: String::from_str(primary_label()), steps }
}

/// The reaction to a second launch with the arguments `args`, where
/// `upcoming` is the number of the next secondary window.
pub open spec fn second_launch_reaction_of(
    config: LaunchConfig,
    upcoming: nat,
    args: Seq<Seq<char>>,
) -> ReactionView {
    match find_allowed_url(args, config.url@) {
        Some(url) => secondary_reaction_of(upcoming, parsed_url(url)),
        None => raise_primary_reaction(),
    }
}

/// The number of the next secondary window after a second launch with the
/// arguments `args`: a URL on the configured host uses up a number, whether
/// or not a window comes of it.
pub open spec fn upcoming_after_second_launch(
    config: LaunchConfig,
    upcoming: nat,
    args: Seq<Seq<char>>,
) -> nat {
    if find_allowed_url(args, config.url@).is_some() {
        following(upcoming)
    } else {
        upcoming
    }
}

/// Decides a second launch with the arguments `args`. This runs inside the
/// first process; no second process is kept.
pub fn on_second_launch(
    config: &LaunchConfig,
    counter: &mut WindowCounter,
    args: &[String],
) -> (reaction: Reaction)
    ensures
        reaction@ == second_launch_reaction_of(*config, old(counter).upcoming(), texts(args@)),
        final(counter).upcoming() == upcoming_after_second_launch(
            *config,
            old(counter).upcoming(),
            texts(args@),
        ),
{
    match extract_url_arg(args, config.url.as_str()) {
        Some(url) => {
            let id = counter.allocate();
            secondary_reaction(id, parse_url(url.as_str()))
        },
        None => raise_primary(),
    }
}

/// Bringing a window back leaves it shown, focused and not minimized,
/// whatever it was before.
pub proof fn lemma_raise_steps(before: WindowState)
    ensures
        before.after_steps(raise_steps()).visible,
        before.after_steps(raise_steps()).focused,
        !before.after_steps(raise_steps()).minimized,
        before.after_steps(raise_steps()).fullscreen == before.fullscreen,
{
    reveal_with_fuel(WindowState::after_steps, 4);
    assert(raise_steps().drop_first().drop_first().drop_first().len() == 0);
}

/// Bringing back a window that is shown and focused already changes
/// nothing.
pub proof fn lemma_raise_steps_idempotent(before: WindowState)
    requires
        before.consistent(),
        before.visible,
        before.focused,
    ensures
        before.after_steps(raise_steps()) == before,
{
    reveal_with_fuel(WindowState::after_steps, 4);
    assert(raise_steps().drop_first().drop_first().drop_first().len() == 0);
}

/// A secondary window that is opened ends up shown and focused.
pub proof fn lemma_open_steps(created: WindowState)
    requires
        !created.minimized,
    ensures
        created.after_steps(open_steps()).visible,
        created.after_steps(open_steps()).focused,
{
    reveal_with_fuel(WindowState::after_steps, 3);
    assert(open_steps().drop_first().drop_first().len() == 0);
}

} // verus!
