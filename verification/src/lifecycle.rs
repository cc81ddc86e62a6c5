//! Startup of the primary window: which window state is persisted, when the
//! window is revealed, and how it is sent to a URL given at launch.

use crate::config::{LaunchConfig, Platform};
use crate::text::chars_of;
use crate::url_match::{extract_url_arg, find_allowed_url, texts};
use crate::window::{Step, WindowOp, WindowState};
use vstd::prelude::*;

verus! {

/// Milliseconds between the end of setup and the reveal of the primary
/// window: time for the restored geometry to be applied before the first
/// paint.
pub const WINDOW_SHOW_DELAY: u64 = 50;

/// Milliseconds between the reveal and the focus request on Linux: time for
/// the window manager to map the window.
pub const FOCUS_DELAY: u64 = 30;

/// Milliseconds between the end of setup and the navigation to a URL given
/// at launch.
pub const NAVIGATION_DELAY: u64 = 100;

/// The parts of a window's state that are saved and restored.
#[derive(Clone, Copy, Debug, PartialEq, Eq, Structural)]
pub struct SavedState {
    pub size: bool,
    pub position: bool,
    pub maximized: bool,
    pub visible: bool,
    pub decorations: bool,
    pub fullscreen: bool,
}

/// The parts saved for a configuration: everything but visibility, which
/// the reveal decides; and for a window that starts fullscreen only the
/// fullscreen flag, so that no stale size is restored under it.
pub open spec fn saved_state_of(init_fullscreen: bool) -> SavedState {
    if init_fullscreen {
        SavedState {
            size: false,
            position: false,
            maximized: false,
            visible: false,
            decorations: false,
            fullscreen: true,
        }
    } else {
        SavedState {
            size: true,
            position: true,
            maximized: true,
            visible: false,
            decorations: true,
            fullscreen: true,
        }
    }
}

/// The parts of the window state to save and restore.
pub fn saved_state(init_fullscreen: bool) -> (saved: SavedState)
    ensures
        saved == saved_state_of(init_fullscreen),
{
    SavedState {
        size: !init_fullscreen,
        position: !init_fullscreen,
        maximized: !init_fullscreen,
        visible: false,
        decorations: !init_fullscreen,
        fullscreen: true,
    }
}

/// The steps that reveal the primary window once setup is complete. None
/// where it starts in the tray. Else a pause and the reveal; on Linux then
/// either fullscreen and focus, where fullscreen is configured, or a second
/// pause and focus.
pub open spec fn reveal_steps_of(config: LaunchConfig, platform: Platform) -> Seq<Step> {
    if config.starts_in_tray() {
        Seq::empty()
    } else if platform != Platform::Linux {
        seq![Step::Wait(WINDOW_SHOW_DELAY), Step::Apply(WindowOp::Show)]
    } else if config.fullscreen {
        seq![
            Step::Wait(WINDOW_SHOW_DELAY),
            Step::Apply(WindowOp::Show),
            Step::Apply(WindowOp::EnterFullscreen),
            Step::Apply(WindowOp::Focus),
        ]
    } else {
        seq![
            Step::Wait(WINDOW_SHOW_DELAY),
            Step::Apply(WindowOp::Show),
            Step::Wait(FOCUS_DELAY),
            Step::Apply(WindowOp::Focus),
        ]
    }
}

/// The steps that reveal the primary window, to be run in a task of their
/// own once setup is complete.
pub fn reveal_steps(config: &LaunchConfig, platform: Platform) -> (steps: Vec<Step>)
    ensures
        steps@ == reveal_steps_of(*config, platform),
{
    let mut steps: Vec<Step> = Vec::new();
    if config.starts_in_tray() {
        return steps;
    }
    steps.push(Step::Wait(WINDOW_SHOW_DELAY));
    steps.push(Step::Apply(WindowOp::Show));
    if platform == Platform::Linux {
        if config.fullscreen {
            steps.push(Step::Apply(WindowOp::EnterFullscreen));
        } else {
            steps.push(Step::Wait(FOCUS_DELAY));
        }
        steps.push(Step::Apply(WindowOp::Focus));
    }
    assert(steps@ =~= reveal_steps_of(*config, platform));
    steps
}

/// A window that starts in the tray is never shown by the reveal; any other
/// is shown by it, and on Linux it also has the focus, and is fullscreen
/// where that is configured.
pub proof fn lemma_reveal(config: LaunchConfig, platform: Platform, before: WindowState)
    requires
        !before.minimized,
    ensures
        config.starts_in_tray() ==> before.after_steps(reveal_steps_of(config, platform))
            == before,
        !config.starts_in_tray() ==> before.after_steps(reveal_steps_of(config, platform)).visible,
        !config.starts_in_tray() && platform == Platform::Linux ==> {
            let shown = before.after_steps(reveal_steps_of(config, platform));
            shown.focused && (config.fullscreen ==> shown.fullscreen)
        },
{
    let steps = reveal_steps_of(config, platform);
    reveal_with_fuel(WindowState::after_steps, 5);
    if steps.len() > 0 {
        let s1 = steps.drop_first();
        let s2 = s1.drop_first();
        assert(s2.len() == 0 || s2.drop_first().drop_first().len() == 0);
    }
}

/// `s` with a backslash put before each single quote.
pub open spec fn escape_quotes(s: Seq<char>) -> Seq<char>
    decreases s.len(),
{
    if s.len() == 0 {
        Seq::empty()
    } else if s[0] == '\'' {
        "\\'"@ + escape_quotes(s.drop_first())
    } else {
        seq![s[0]] + escape_quotes(s.drop_first())
    }
}

/// The script that sends a window to `url`: an assignment to the window's
/// location of `url` as a string in single quotes, with the single quotes of
/// `url` escaped.
pub open spec fn navigation_script_text(url: Seq<char>) -> Seq<char> {
    "window.location.href = '"@ + escape_quotes(url) + "'"@
}

/// Escaping goes part by part.
pub proof fn lemma_escape_concat(a: Seq<char>, b: Seq<char>)
    ensures
        escape_quotes(a + b) == escape_quotes(a) + escape_quotes(b),
    decreases a.len(),
{
    if a.len() == 0 {
        assert(a + b =~= b);
        assert(escape_quotes(a) + escape_quotes(b) =~= escape_quotes(b));
    } else {
        assert((a + b).drop_first() =~= a.drop_first() + b);
        lemma_escape_concat(a.drop_first(), b);
        let rest = escape_quotes(a.drop_first());
        if a[0] == '\'' {
            assert(("\\'"@ + rest) + escape_quotes(b) =~= "\\'"@ + (rest + escape_quotes(b)));
        } else {
            assert((seq![a[0]] + rest) + escape_quotes(b) =~= seq![a[0]] + (rest + escape_quotes(
                b,
            )));
        }
    }
}

/// Text without single quotes is left as it is.
pub proof fn lemma_escape_plain(s: Seq<char>)
    requires
        forall|i: int| 0 <= i < s.len() ==> s[i] != '\'',
    ensures
        escape_quotes(s) == s,
    decreases s.len(),
{
    if s.len() > 0 {
        let tail = s.drop_first();
        assert forall|i: int| 0 <= i < tail.len() implies tail[i] != '\'' by {
            assert(tail[i] == s[i + 1]);
        }
        lemma_escape_plain(tail);
        assert(seq![s[0]] + tail =~= s);
    }
}

/// In escaped text a backslash stands before every single quote.
pub proof fn lemma_escaped_quotes(s: Seq<char>)
    ensures
        forall|i: int|
            0 <= i < escape_quotes(s).len() && #[trigger] escape_quotes(s)[i] == '\'' ==> i > 0
                && escape_quotes(s)[i - 1] == '\\',
    decreases s.len(),
{
    reveal_strlit("\\'");
    if s.len() > 0 {
        let tail = escape_quotes(s.drop_first());
        lemma_escaped_quotes(s.drop_first());
        let escaped = escape_quotes(s);
        let head_len = escaped.len() - tail.len();
        assert forall|i: int| 0 <= i < escaped.len() && #[trigger] escaped[i] == '\'' implies i > 0
            && escaped[i - 1] == '\\' by {
            if i >= head_len {
                assert(escaped[i] == tail[i - head_len]);
                if i - head_len > 0 {
                    assert(escaped[i - 1] == tail[i - head_len - 1]);
                }
            }
        }
    }
}

/// The script that sends a window to `url`.
pub fn navigation_script(url: &str) -> (script: String)
    ensures
        script@ == navigation_script_text(url@),
{
    let chars = chars_of(url);
    let mut script = String::from_str("window.location.href = '");
    let ghost head = "window.location.href = '"@;
    let mut start: usize = 0;
    let mut i: usize = 0;
    proof {
        assert(url@.take(0) =~= Seq::<char>::empty());
        assert(head + escape_quotes(url@.take(0)) =~= head);
    }
    while i < chars.len()
        invariant
            chars@ == url@,
            start <= i <= chars.len(),
            script@ == head + escape_quotes(url@.take(start as int)),
            forall|k: int| start <= k < i ==> url@[k] != '\'',
        decreases chars.len() - i,
    {
        if chars[i] == '\'' {
            let plain = url.substring_char(start, i);
            script.append(plain);
            script.append("\\'");
            proof {
                let done = url@.take(start as int);
                let quote = url@.subrange(i as int, i + 1);
                lemma_escape_plain(plain@);
                assert(quote[0] == '\'');
                assert(escape_quotes(quote.drop_first()) =~= Seq::<char>::empty());
                assert(escape_quotes(quote) =~= "\\'"@);
                lemma_escape_concat(done, plain@);
                lemma_escape_concat(done + plain@, quote);
                assert(done + plain@ + quote =~= url@.take(i + 1));
                assert(head + escape_quotes(done) + plain@ + "\\'"@ =~= head + (escape_quotes(done)
                    + plain@ + "\\'"@));
            }
            start = i + 1;
        }
        i += 1;
    }
    let plain = url.substring_char(start, chars.len());
    script.append(plain);
    script.append("'");
    proof {
        let done = url@.take(start as int);
        lemma_escape_plain(plain@);
        lemma_escape_concat(done, plain@);
        assert(done + plain@ =~= url@);
        assert(head + escape_quotes(done) + plain@ =~= head + (escape_quotes(done) + plain@));
    }
    script
}

/// Whether the rendering-backend override has to be put into the
/// environment: on Linux, unless the caller has set the variable already.
pub fn needs_renderer_override(platform: Platform, already_set: bool) -> (needed: bool)
    ensures
        needed == (platform == Platform::Linux && !already_set),
{
    platform == Platform::Linux && !already_set
}

/// The name of the rendering-backend variable and the value it is set to.
pub fn renderer_override() -> (setting: (&'static str, &'static str))
    ensures
        setting.0@ == "WEBKIT_DISABLE_DMABUF_RENDERER"@,
        setting.1@ == "1"@,
{
    ("WEBKIT_DISABLE_DMABUF_RENDERER", "1")
}

/// What startup does beyond building the primary window.
#[derive(Debug, PartialEq, Eq)]
pub struct StartupPlan {
    /// Whether the rendering-backend override is put into the environment.
    pub renderer_override: bool,
    /// The parts of the window state that are saved and restored.
    pub saved: SavedState,
    /// Whether later launches are handed to this process.
    pub single_instance: bool,
    /// The script to evaluate in the primary window after
    /// `NAVIGATION_DELAY`, where the launch arguments hold a URL to open.
    pub navigation: Option<String>,
    /// The steps that reveal the primary window; none where it stays hidden.
    pub reveal: Vec<Step>,
}

/// A `StartupPlan` with its texts as sequences.
pub struct StartupPlanView {
    pub renderer_override: bool,
    pub saved: SavedState,
    pub single_instance: bool,
    pub navigation: Option<Seq<char>>,
    pub reveal: Seq<Step>,
}

impl View for StartupPlan {
    type V = StartupPlanView;

    open spec fn view(&self) -> StartupPlanView {
        StartupPlanView {
            renderer_override: self.renderer_override,
            saved: self.saved,
            single_instance: self.single_instance,
            navigation: self.navigation.deep_view(),
            reveal: self.reveal@,
        }
    }
}

/// The script for the URL found among the launch arguments, if there is one.
pub open spec fn launch_navigation_of(args: Seq<Seq<char>>, config_url: Seq<char>) -> Option<
    Seq<char>,
> {
    match find_allowed_url(args, config_url) {
        Some(url) => Some(navigation_script_text(url)),
        None => None,
    }
}

/// The startup plan for a configuration, a platform, the arguments of this
/// launch and whether the caller has set the rendering-backend variable.
pub open spec fn startup_plan_of(
    config: LaunchConfig,
    platform: Platform,
    launch_args: Seq<Seq<char>>,
    renderer_variable_set: bool,
) -> StartupPlanView {
    StartupPlanView {
        renderer_override: platform == Platform::Linux && !renderer_variable_set,
        saved: saved_state_of(config.fullscreen),
        single_instance: config.single_instance(),
        navigation: launch_navigation_of(launch_args, config.url@),
        reveal: reveal_steps_of(config, platform),
    }
}

/// Plans the startup of the process.
pub fn startup_plan(
    config: &LaunchConfig,
    platform: Platform,
    launch_args: &[String],
    renderer_variable_set: bool,
) -> (plan: StartupPlan)
    ensures
        plan@ == startup_plan_of(*config, platform, texts(launch_args@), renderer_variable_set),
{
    let navigation = match extract_url_arg(launch_args, config.url.as_str()) {
        Some(url) => Some(navigation_script(url.as_str())),
        None => None,
    };
    StartupPlan {
        renderer_override: needs_renderer_override(platform, renderer_variable_set),
        saved: saved_state(config.fullscreen),
        single_instance: config.single_instance(),
        navigation,
        reveal: reveal_steps(config, platform),
    }
}

} // verus!
