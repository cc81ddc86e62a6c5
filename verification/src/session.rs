//! The life of the process as a whole: startup, then one reaction to each
//! event, until a close request ends it.

use crate::close::{close_reaction_of, on_close_requested, on_reopen, reopen_reaction_of};
use crate::config::{LaunchConfig, Platform};
use crate::instance::{
    on_second_launch, parsed_url, second_launch_reaction_of, secondary_reaction_of,
    upcoming_after_second_launch,
};
use crate::lifecycle::{startup_plan, startup_plan_of, StartupPlan};
use crate::reaction::{views, Reaction, ReactionView};
use crate::url_match::{find_allowed_url, texts};
use crate::window::{
    following, lemma_secondary_label_not_primary, lemma_secondary_labels_distinct,
    primary_label_text, secondary_label_text, WindowCounter,
};
use vstd::prelude::*;

verus! {

/// What reaches the process while it runs.
#[derive(Debug, PartialEq, Eq)]
pub enum Event {
    /// The application was launched again, with these arguments.
    SecondLaunch { args: Vec<String> },
    /// The window `label` was asked to close; `fullscreen` is what it is at
    /// that time.
    CloseRequested { label: String, fullscreen: bool },
    /// The application was reactivated from the dock or the taskbar.
    Reopen { has_visible_windows: bool },
}

/// The reaction to `event`, where `upcoming` is the number of the next
/// secondary window. A process that does not coordinate launches never sees
/// a second one.
pub open spec fn reaction_of(
    config: LaunchConfig,
    platform: Platform,
    upcoming: nat,
    event: Event,
) -> ReactionView {
    match event {
        Event::SecondLaunch { args } => if config.single_instance() {
            second_launch_reaction_of(config, upcoming, texts(args@))
        } else {
            ReactionView::Ignore
        },
        Event::CloseRequested { label, fullscreen } => close_reaction_of(
            config,
            platform,
            label@,
            fullscreen,
        ),
        Event::Reopen { has_visible_windows } => reopen_reaction_of(platform, has_visible_windows),
    }
}

/// The number of the next secondary window after `event`.
pub open spec fn upcoming_after(config: LaunchConfig, upcoming: nat, event: Event) -> nat {
    match event {
        Event::SecondLaunch { args } => if config.single_instance() {
            upcoming_after_second_launch(config, upcoming, texts(args@))
        } else {
            upcoming
        },
        _ => upcoming,
    }
}

/// The reactions to `events`, in order, up to and with the first that ends
/// the process: what comes after it reaches nobody.
pub open spec fn reactions_of(
    config: LaunchConfig,
    platform: Platform,
    upcoming: nat,
    events: Seq<Event>,
) -> Seq<ReactionView>
    decreases events.len(),
{
    if events.len() == 0 {
        Seq::empty()
    } else {
        let first = reaction_of(config, platform, upcoming, events[0]);
        if first is Terminate {
            seq![first]
        } else {
            seq![first] + reactions_of(
                config,
                platform,
                upcoming_after(config, upcoming, events[0]),
                events.drop_first(),
            )
        }
    }
}

/// The number of the next secondary window after all of `events`.
pub open spec fn upcoming_after_all(config: LaunchConfig, upcoming: nat, events: Seq<Event>) -> nat
    decreases events.len(),
{
    if events.len() == 0 {
        upcoming
    } else {
        upcoming_after_all(
            config,
            upcoming_after(config, upcoming, events[0]),
            events.drop_first(),
        )
    }
}

/// Whether `event` ends the process: a close request does, unless windows
/// are hidden on close.
pub open spec fn ends_process(config: LaunchConfig, event: Event) -> bool {
    event is CloseRequested && !config.hide_on_close
}

/// Whether `event` is a second launch whose arguments hold a URL on the
/// configured host.
pub open spec fn launches_url(config: LaunchConfig, event: Event) -> bool {
    event matches Event::SecondLaunch { args } && find_allowed_url(
        texts(args@),
        config.url@,
    ).is_some()
}

/// The URL that the parser is given for a second launch.
pub open spec fn launched_url(config: LaunchConfig, event: Event) -> Seq<char>
    recommends
        launches_url(config, event),
{
    find_allowed_url(texts(event->args@), config.url@).unwrap()
}

/// Exactly the events that end the process are answered by `Terminate`,
/// and then with exit code 0.
pub proof fn lemma_terminate_iff_ends(
    config: LaunchConfig,
    platform: Platform,
    upcoming: nat,
    event: Event,
)
    ensures
        reaction_of(config, platform, upcoming, event) is Terminate <==> ends_process(
            config,
            event,
        ),
        ends_process(config, event) ==> reaction_of(config, platform, upcoming, event)
            == (ReactionView::Terminate { code: 0 }),
{
}

/// As long as no earlier event has ended the process, the event at `k` is
/// answered, by the reaction to it at the count that the events before it
/// have left; and where it ends the process, its reaction is the last.
pub proof fn lemma_reaction_at(
    config: LaunchConfig,
    platform: Platform,
    upcoming: nat,
    events: Seq<Event>,
    k: int,
)
    requires
        0 <= k < events.len(),
        forall|j: int| 0 <= j < k ==> !ends_process(config, #[trigger] events[j]),
    ensures
        k < reactions_of(config, platform, upcoming, events).len() <= events.len(),
        reactions_of(config, platform, upcoming, events)[k] == reaction_of(
            config,
            platform,
            upcoming_after_all(config, upcoming, events.take(k)),
            events[k],
        ),
        ends_process(config, events[k]) ==> reactions_of(config, platform, upcoming, events).len()
            == k + 1,
    decreases events.len(),
{
    let first = reaction_of(config, platform, upcoming, events[0]);
    let rest = events.drop_first();
    let next = upcoming_after(config, upcoming, events[0]);
    lemma_terminate_iff_ends(config, platform, upcoming, events[0]);
    if k == 0 {
        assert(events.take(0) =~= Seq::<Event>::empty());
        if !(first is Terminate) {
            lemma_reactions_len(config, platform, next, rest);
        }
    } else {
        assert(!ends_process(config, events[0]));
        assert forall|j: int| 0 <= j < k - 1 implies !ends_process(config, #[trigger] rest[j]) by {
            assert(rest[j] == events[j + 1]);
        }
        lemma_reaction_at(config, platform, next, rest, k - 1);
        assert(events.take(k)[0] == events[0]);
        assert(events.take(k).drop_first() =~= rest.take(k - 1));
        assert(rest[k - 1] == events[k]);
    }
}

/// No more reactions than events.
pub proof fn lemma_reactions_len(
    config: LaunchConfig,
    platform: Platform,
    upcoming: nat,
    events: Seq<Event>,
)
    ensures
        reactions_of(config, platform, upcoming, events).len() <= events.len(),
    decreases events.len(),
{
    if events.len() > 0 {
        lemma_reactions_len(
            config,
            platform,
            upcoming_after(config, upcoming, events[0]),
            events.drop_first(),
        );
    }
}

/// Where no event ends the process, every event is answered.
pub proof fn lemma_all_answered(
    config: LaunchConfig,
    platform: Platform,
    upcoming: nat,
    events: Seq<Event>,
)
    requires
        forall|j: int| 0 <= j < events.len() ==> !ends_process(config, #[trigger] events[j]),
    ensures
        reactions_of(config, platform, upcoming, events).len() == events.len(),
{
    lemma_reactions_len(config, platform, upcoming, events);
    if events.len() > 0 {
        lemma_reaction_at(config, platform, upcoming, events, events.len() - 1);
    }
}

/// With `hide_on_close` nothing ends the process: every event is answered,
/// none by `Terminate`, and every close request by hiding the window, which
/// suppresses the native close.
pub proof fn lemma_hide_on_close_keeps_running(
    config: LaunchConfig,
    platform: Platform,
    upcoming: nat,
    events: Seq<Event>,
)
    requires
        config.hide_on_close,
    ensures
        reactions_of(config, platform, upcoming, events).len() == events.len(),
        forall|k: int|
            0 <= k < events.len() ==> !(#[trigger] reactions_of(
                config,
                platform,
                upcoming,
                events,
            )[k] is Terminate),
        forall|k: int|
            0 <= k < events.len() && events[k] is CloseRequested ==> #[trigger] reactions_of(
                config,
                platform,
                upcoming,
                events,
            )[k] is HideWindow,
{
    lemma_all_answered(config, platform, upcoming, events);
    let reactions = reactions_of(config, platform, upcoming, events);
    assert forall|k: int| 0 <= k < events.len() implies !(#[trigger] reactions[k] is Terminate)
        && (events[k] is CloseRequested ==> reactions[k] is HideWindow) by {
        lemma_reaction_at(config, platform, upcoming, events, k);
    }
}

/// Without `hide_on_close` the first close request ends the process: its
/// reaction is `Terminate` with exit code 0 and is the last, so that
/// nothing is hidden or minimized for it.
pub proof fn lemma_close_ends_the_run(
    config: LaunchConfig,
    platform: Platform,
    upcoming: nat,
    events: Seq<Event>,
    k: int,
)
    requires
        !config.hide_on_close,
        0 <= k < events.len(),
        events[k] is CloseRequested,
        forall|j: int| 0 <= j < k ==> !(#[trigger] events[j] is CloseRequested),
    ensures
        reactions_of(config, platform, upcoming, events).len() == k + 1,
        reactions_of(config, platform, upcoming, events)[k] == (ReactionView::Terminate {
            code: 0,
        }),
{
    lemma_reaction_at(config, platform, upcoming, events, k);
}

/// The label that goes with the launch at `k`, where the launch at 0 is
/// given the number `first`.
pub open spec fn label_of_launch(first: nat, k: int) -> Seq<char> {
    secondary_label_text((first + k) as nat)
}

/// After `k` launches that each use up a number, the count stands `k`
/// higher, as long as it stays within `usize`.
pub proof fn lemma_upcoming_after_launches(
    config: LaunchConfig,
    upcoming: nat,
    events: Seq<Event>,
)
    requires
        config.single_instance(),
        forall|j: int| 0 <= j < events.len() ==> launches_url(config, #[trigger] events[j]),
        upcoming + events.len() <= usize::MAX + 1,
    ensures
        events.len() > 0 ==> upcoming_after_all(config, upcoming, events) == following(
            (upcoming + events.len() - 1) as nat,
        ),
        events.len() == 0 ==> upcoming_after_all(config, upcoming, events) == upcoming,
    decreases events.len(),
{
    if events.len() > 0 {
        let rest = events.drop_first();
        assert(launches_url(config, events[0]));
        assert forall|j: int| 0 <= j < rest.len() implies launches_url(
            config,
            #[trigger] rest[j],
        ) by {
            assert(rest[j] == events[j + 1]);
        }
        let next = upcoming_after(config, upcoming, events[0]);
        assert(next == following(upcoming));
        if rest.len() > 0 {
            lemma_upcoming_after_launches(config, next, rest);
        } else {
            assert(upcoming_after_all(config, next, rest) == next);
        }
    }
}

/// Labels of consecutive launches. Where every one of `events` is a second
/// launch with a URL on the configured host, and the count stays within
/// `usize`, the launch at `k` is given the number `first + k`: the numbers
/// rise by one from launch to launch, whether or not a window comes of each.
/// The windows opened carry the labels of their numbers, so that no two of
/// them share a label and none has the label of the primary window.
pub proof fn lemma_consecutive_launches(
    config: LaunchConfig,
    platform: Platform,
    first: nat,
    events: Seq<Event>,
)
    requires
        config.single_instance(),
        forall|j: int| 0 <= j < events.len() ==> launches_url(config, #[trigger] events[j]),
        first + events.len() <= usize::MAX + 1,
    ensures
        reactions_of(config, platform, first, events).len() == events.len(),
        forall|k: int|
            0 <= k < events.len() ==> #[trigger] reactions_of(config, platform, first, events)[k]
                == secondary_reaction_of(
                (first + k) as nat,
                parsed_url(launched_url(config, events[k])),
            ),
        forall|j: int, k: int|
            0 <= j < k < events.len() ==> #[trigger] label_of_launch(first, j)
                != #[trigger] label_of_launch(first, k),
        forall|k: int|
            0 <= k < events.len() ==> #[trigger] label_of_launch(first, k) != primary_label_text(),
{
    let reactions = reactions_of(config, platform, first, events);
    assert forall|j: int| 0 <= j < events.len() implies !ends_process(
        config,
        #[trigger] events[j],
    ) by {
        assert(launches_url(config, events[j]));
    }
    lemma_all_answered(config, platform, first, events);
    assert forall|k: int| 0 <= k < events.len() implies #[trigger] reactions[k]
        == secondary_reaction_of(
        (first + k) as nat,
        parsed_url(launched_url(config, events[k])),
    ) by {
        lemma_reaction_at(config, platform, first, events, k);
        let before = events.take(k);
        assert forall|j: int| 0 <= j < before.len() implies launches_url(
            config,
            #[trigger] before[j],
        ) by {
            assert(before[j] == events[j]);
        }
        lemma_upcoming_after_launches(config, first, before);
        assert(launches_url(config, events[k]));
    }
    assert forall|j: int, k: int| 0 <= j < k < events.len() implies #[trigger] label_of_launch(
        first,
        j,
    ) != #[trigger] label_of_launch(first, k) by {
        lemma_secondary_labels_distinct((first + j) as nat, (first + k) as nat);
    }
    assert forall|k: int| 0 <= k < events.len() implies #[trigger] label_of_launch(first, k)
        != primary_label_text() by {
        lemma_secondary_label_not_primary((first + k) as nat);
    }
}

/// The state of a running process: its configuration and platform, which
/// never change, and the counter that numbers its secondary windows.
#[derive(Debug, PartialEq, Eq)]
pub struct Session {
    pub config: LaunchConfig,
    pub platform: Platform,
    pub counter: WindowCounter,
}

impl Session {
    /// The state at process start: no secondary window has been numbered.
    pub fn new(config: LaunchConfig, platform: Platform) -> (session: Session)
        ensures
            session.config == config,
            session.platform == platform,
            session.counter.upcoming() == 1,
    {
        Session { config, platform, counter: WindowCounter::new() }
    }

    /// Decides what the shell does about `event`. Only a second launch with
    /// a URL on the configured host changes the state: it uses up a number.
    pub fn handle(&mut self, event: &Event) -> (reaction: Reaction)
        ensures
            reaction@ == reaction_of(
                old(self).config,
                old(self).platform,
                old(self).counter.upcoming(),
                *event,
            ),
            final(self).counter.upcoming() == upcoming_after(
                old(self).config,
                old(self).counter.upcoming(),
                *event,
            ),
            final(self).config == old(self).config,
            final(self).platform == old(self).platform,
    {
        match event {
            Event::SecondLaunch { args } => {
                if self.config.single_instance() {
                    on_second_launch(&self.config, &mut self.counter, args.as_slice())
                } else {
                    Reaction::Ignore
                }
            },
            Event::CloseRequested { label, fullscreen } => on_close_requested(
                &self.config,
                self.platform,
                label.as_str(),
                *fullscreen,
            ),
            Event::Reopen { has_visible_windows } => on_reopen(self.platform, *has_visible_windows),
        }
    }
}

/// What a process did from start to end.
#[derive(Debug, PartialEq, Eq)]
pub struct RunLog {
    /// The plan that startup followed.
    pub startup: StartupPlan,
    /// The reaction to each event that reached the process, in order.
    pub reactions: Vec<Reaction>,
}

/// Runs the application on a given course of events: plans the startup for
/// the launch arguments, then reacts to each event in turn until one ends
/// the process or none is left.
pub fn run(
    config: LaunchConfig,
    platform: Platform,
    launch_args: &[String],
    renderer_variable_set: bool,
    events: &[Event],
) -> (log: RunLog)
    ensures
        log.startup@ == startup_plan_of(
            config,
            platform,
            texts(launch_args@),
            renderer_variable_set,
        ),
        views(log.reactions@) == reactions_of(config, platform, 1, events@),
{
    let startup = startup_plan(&config, platform, launch_args, renderer_variable_set);
    let mut session = Session::new(config, platform);
    let mut reactions: Vec<Reaction> = Vec::new();
    let mut i: usize = 0;
    let mut ended = false;
    proof {
        assert(events@.skip(0) =~= events@);
        assert(views(reactions@) + reactions_of(config, platform, 1, events@) =~= reactions_of(
            config,
            platform,
            1,
            events@,
        ));
    }
    while i < events.len() && !ended
        invariant
            i <= events.len(),
            session.config == config,
            session.platform == platform,
            !ended ==> views(reactions@) + reactions_of(
                config,
                platform,
                session.counter.upcoming(),
                events@.skip(i as int),
            ) == reactions_of(config, platform, 1, events@),
            ended ==> views(reactions@) == reactions_of(config, platform, 1, events@),
        decreases events.len() - i,
    {
        let ghost before = views(reactions@);
        let ghost upcoming = session.counter.upcoming();
        let ghost rest = events@.skip(i as int);
        let reaction = session.handle(&events[i]);
        proof {
            assert(rest[0] == events@[i as int]);
            assert(rest.drop_first() =~= events@.skip(i + 1));
        }
        if let Reaction::Terminate { .. } = reaction {
            ended = true;
        }
        reactions.push(reaction);
        proof {
            assert(views(reactions@) =~= before + seq![reaction@]);
            if ended {
                assert(before + seq![reaction@] =~= before + reactions_of(
                    config,
                    platform,
                    upcoming,
                    rest,
                ));
            } else {
                let later = reactions_of(
                    config,
                    platform,
                    session.counter.upcoming(),
                    events@.skip(i + 1),
                );
                assert(before + seq![reaction@] + later =~= before + (seq![reaction@] + later));
            }
        }
        i += 1;
    }
    proof {
        if !ended {
            assert(views(reactions@) + Seq::<ReactionView>::empty() =~= views(reactions@));
        }
    }
    RunLog { startup, reactions }
}

} // verus!
