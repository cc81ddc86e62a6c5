use pake::config::LaunchConfig;
use pake::instance::{on_second_launch, secondary_reaction};
use pake::reaction::Reaction;
use pake::window::{Step, WindowCounter, WindowOp, WindowState};

fn config(url: &str) -> LaunchConfig {
    LaunchConfig {
        url: url.to_string(),
        fullscreen: false,
        hide_on_close: false,
        start_to_tray: false,
        show_system_tray: false,
        multi_instance: false,
    }
}

fn args(list: &[&str]) -> Vec<String> {
    list.iter().map(|s| s.to_string()).collect()
}

fn open(label: &str, url: &str) -> Reaction {
    Reaction::OpenWindow {
        label: label.to_string(),
        url: url.to_string(),
        title: String::new(),
        steps: vec![Step::Apply(WindowOp::Show), Step::Apply(WindowOp::Focus)],
    }
}

fn raise_primary() -> Reaction {
    Reaction::RaiseWindow {
        label: "pake".to_string(),
        steps: vec![
            Step::Apply(WindowOp::Unminimize),
            Step::Apply(WindowOp::Show),
            Step::Apply(WindowOp::Focus),
        ],
    }
}

#[test]
fn secondary_reaction_opens_a_labelled_window() {
    assert_eq!(
        secondary_reaction(7, Some("https://example.com/".to_string())),
        open("pake-7", "https://example.com/")
    );
}

#[test]
fn secondary_reaction_without_a_parsed_url_does_nothing() {
    assert_eq!(secondary_reaction(7, None), Reaction::Ignore);
}

#[test]
fn second_launch_with_url_opens_a_window() {
    let mut counter = WindowCounter::new();
    let reaction = on_second_launch(
        &config("https://example.com"),
        &mut counter,
        &args(&["exe", "https://example.com/page", "irrelevant"]),
    );
    assert_eq!(reaction, open("pake-1", "https://example.com/page"));
    assert_eq!(counter.peek(), 2);
}

#[test]
fn second_launch_opens_the_url_as_the_parser_writes_it() {
    let mut counter = WindowCounter::new();
    let reaction = on_second_launch(
        &config("https://example.com"),
        &mut counter,
        &args(&["exe", "https://example.com"]),
    );
    assert_eq!(reaction, open("pake-1", "https://example.com/"));
    let reaction = on_second_launch(
        &config("https://example.com"),
        &mut counter,
        &args(&["exe", "https://example.com/a b/../c?q=é"]),
    );
    assert_eq!(reaction, open("pake-2", "https://example.com/c?q=%C3%A9"));
}

#[test]
fn second_launch_without_url_raises_the_primary_window() {
    let mut counter = WindowCounter::new();
    for list in [&["exe"][..], &["exe", "not-a-url"], &["exe", "https://evil.com/x"], &[]] {
        let reaction = on_second_launch(&config("https://example.com"), &mut counter, &args(list));
        assert_eq!(reaction, raise_primary());
        assert_eq!(counter.peek(), 1);
    }
}

#[test]
fn second_launch_with_unparsable_url_does_nothing_but_uses_a_number() {
    let mut counter = WindowCounter::new();
    let reaction = on_second_launch(&config("no-scheme"), &mut counter, &args(&["exe", "http://"]));
    assert_eq!(reaction, Reaction::Ignore);
    assert_eq!(counter.peek(), 2);
    let reaction = on_second_launch(
        &config("https://exa mple.com"),
        &mut counter,
        &args(&["exe", "https://exa mple.com/x"]),
    );
    assert_eq!(reaction, Reaction::Ignore);
    assert_eq!(counter.peek(), 3);
}

#[test]
fn consecutive_launches_get_rising_labels() {
    let mut counter = WindowCounter::new();
    let c = config("https://example.com");
    for n in 1..=12usize {
        let url = format!("https://example.com/{}", n);
        let reaction = on_second_launch(&c, &mut counter, &args(&["exe", &url]));
        assert_eq!(reaction, open(&format!("pake-{}", n), &url));
    }
    assert_eq!(counter.peek(), 13);
}

#[test]
fn a_launch_without_url_uses_no_number() {
    let mut counter = WindowCounter::new();
    let c = config("https://example.com");
    assert_eq!(
        on_second_launch(&c, &mut counter, &args(&["exe", "https://example.com/1"])),
        open("pake-1", "https://example.com/1")
    );
    assert_eq!(on_second_launch(&c, &mut counter, &args(&["exe"])), raise_primary());
    assert_eq!(
        on_second_launch(&c, &mut counter, &args(&["exe", "https://example.com/2"])),
        open("pake-2", "https://example.com/2")
    );
}

#[test]
fn raising_leaves_the_window_shown_and_focused() {
    let steps = match raise_primary() {
        Reaction::RaiseWindow { steps, .. } => steps,
        other => panic!("unexpected {:?}", other),
    };
    for visible in [false, true] {
        for minimized in [false, true] {
            for fullscreen in [false, true] {
                let mut w = WindowState { visible, focused: false, minimized, fullscreen };
                w.apply_steps(&steps);
                assert_eq!(
                    w,
                    WindowState { visible: true, focused: true, minimized: false, fullscreen }
                );
                let raised = w;
                w.apply_steps(&steps);
                assert_eq!(w, raised);
            }
        }
    }
}

#[test]
fn raise_primary_targets_the_primary_window() {
    assert_eq!(pake::instance::raise_primary(), raise_primary());
}
