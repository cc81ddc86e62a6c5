use pake::window::{primary_label, secondary_label, Step, WindowCounter, WindowOp, WindowState};

const SHOWN: WindowState =
    WindowState { visible: true, focused: true, minimized: false, fullscreen: false };

const UNFOCUSED: WindowState =
    WindowState { visible: true, focused: false, minimized: false, fullscreen: false };

const MINIMIZED: WindowState =
    WindowState { visible: true, focused: false, minimized: true, fullscreen: false };

#[test]
fn primary_label_is_fixed() {
    assert_eq!(primary_label(), "pake");
}

#[test]
fn secondary_labels_carry_their_number() {
    assert_eq!(secondary_label(1), "pake-1");
    assert_eq!(secondary_label(2), "pake-2");
    assert_eq!(secondary_label(10), "pake-10");
    assert_eq!(secondary_label(0), "pake-0");
    assert_eq!(secondary_label(usize::MAX), format!("pake-{}", usize::MAX));
}

#[test]
fn secondary_labels_are_distinct_and_never_primary() {
    let labels: Vec<String> = (0..500).map(secondary_label).collect();
    for (i, a) in labels.iter().enumerate() {
        assert_ne!(a, primary_label());
        for b in &labels[i + 1..] {
            assert_ne!(a, b);
        }
    }
}

#[test]
fn counter_starts_at_one_and_rises_by_one() {
    let mut counter = WindowCounter::new();
    assert_eq!(counter.peek(), 1);
    assert_eq!(counter.allocate(), 1);
    assert_eq!(counter.allocate(), 2);
    assert_eq!(counter.allocate(), 3);
    assert_eq!(counter.peek(), 4);
}

#[test]
fn counter_peek_gives_nothing_out() {
    let counter = WindowCounter::starting_at(9);
    assert_eq!(counter.peek(), 9);
    assert_eq!(counter.peek(), 9);
}

#[test]
fn counter_starts_again_after_the_largest_number() {
    let mut counter = WindowCounter::starting_at(usize::MAX - 1);
    assert_eq!(counter.allocate(), usize::MAX - 1);
    assert_eq!(counter.allocate(), usize::MAX);
    assert_eq!(counter.allocate(), 0);
    assert_eq!(counter.allocate(), 1);
}

#[test]
fn a_created_window_is_hidden() {
    assert_eq!(
        WindowState::created(),
        WindowState { visible: false, focused: false, minimized: false, fullscreen: false }
    );
}

#[test]
fn each_operation_changes_what_it_names() {
    let mut w = WindowState::created();
    w.apply(WindowOp::Show);
    assert_eq!(w, UNFOCUSED);
    w.apply(WindowOp::Focus);
    assert_eq!(w, SHOWN);
    w.apply(WindowOp::EnterFullscreen);
    assert_eq!(w, WindowState { fullscreen: true, ..SHOWN });
    w.apply(WindowOp::ExitFullscreen);
    assert_eq!(w, SHOWN);
    w.apply(WindowOp::Minimize);
    assert_eq!(w, MINIMIZED);
    w.apply(WindowOp::Unminimize);
    assert_eq!(w, UNFOCUSED);
    w.apply(WindowOp::Focus);
    w.apply(WindowOp::Hide);
    assert_eq!(w, WindowState::created());
}

#[test]
fn a_hidden_or_minimized_window_does_not_take_focus() {
    let mut hidden = WindowState::created();
    hidden.apply(WindowOp::Focus);
    assert!(!hidden.focused);
    let mut minimized = MINIMIZED;
    minimized.apply(WindowOp::Focus);
    assert!(!minimized.focused);
}

#[test]
fn raising_a_shown_and_focused_window_changes_nothing() {
    for op in [WindowOp::Show, WindowOp::Focus, WindowOp::Unminimize] {
        for fullscreen in [false, true] {
            let before = WindowState { fullscreen, ..SHOWN };
            let mut w = before;
            w.apply(op);
            assert_eq!(w, before);
            w.apply(op);
            assert_eq!(w, before);
            assert!(w.visible && w.focused);
        }
    }
}

#[test]
fn steps_are_applied_in_order_and_pauses_change_nothing() {
    let mut w = WindowState::created();
    w.apply_steps(&[
        Step::Wait(50),
        Step::Apply(WindowOp::Show),
        Step::Wait(30),
        Step::Apply(WindowOp::Focus),
    ]);
    assert_eq!(w, SHOWN);
    let mut v = WindowState::created();
    v.apply_steps(&[Step::Apply(WindowOp::Focus), Step::Apply(WindowOp::Show)]);
    assert_eq!(v, UNFOCUSED);
    let mut u = SHOWN;
    u.apply_steps(&[]);
    assert_eq!(u, SHOWN);
    u.apply_steps(&[Step::Wait(900)]);
    assert_eq!(u, SHOWN);
}

#[test]
fn repeating_an_operation_changes_nothing() {
    let ops = [
        WindowOp::Show,
        WindowOp::Hide,
        WindowOp::Minimize,
        WindowOp::Unminimize,
        WindowOp::Focus,
        WindowOp::EnterFullscreen,
        WindowOp::ExitFullscreen,
    ];
    for start in [WindowState::created(), SHOWN, UNFOCUSED, MINIMIZED] {
        for op in ops {
            let mut once = start;
            once.apply(op);
            let mut twice = once;
            twice.apply(op);
            assert_eq!(twice, once);
        }
    }
}
