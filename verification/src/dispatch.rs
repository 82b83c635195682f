//! The event dispatcher: the single authority over the core's mutable
//! state. It handles one event at a time and answers with the commands —
//! schedule a tick, schedule a poll, start a fetch, emit a rebuild — that
//! the runtime glue executes; the glue's work comes back as later events,
//! so the loop is recursive by event, never by call.

use vstd::prelude::*;

use crate::client::batch_of;
use crate::client::synthetic_error_item;
use crate::client::synthetic_item;
use crate::config::Config;
use crate::config::FeedUrlData;
use crate::errors::CoreError;
use crate::errors::FetchError;
use crate::errors::FetchErrorData;
use crate::feed::FeedItem;
use crate::feed::FeedItemData;
use crate::feed::FeedState;
use crate::feed::FeedStateData;
use crate::feed::count_with_id;
use crate::feed::empty_feed_state;
use crate::feed::has_item_with_id;
use crate::feed::lemma_count_with_id_distinct;
use crate::merge::dedup_batch;
use crate::merge::dedup_from;
use crate::merge::found_new;
use crate::merge::last_occurrence;
use crate::merge::lemma_merged_wf;
use crate::merge::merged;
use crate::merge::new_from;

verus! {

/// The fixed period of the animation scheduler, in time units.
pub const TICK_PERIOD: u64 = 66;

/// The polling cadence a feed with an unspecified interval falls back to.
pub const DEFAULT_POLL_INTERVAL: u64 = 30;

/// One configured feed target: its URL and its polling cadence. Immutable
/// for the lifetime of a polling cycle.
pub struct PollTarget {
    pub url: String,
    /// Time units between two poll attempts; at least one.
    pub interval: u64,
}

/// Mathematical model of a `PollTarget`.
#[verifier::ext_equal]
pub struct PollTargetData {
    pub url: Seq<char>,
    pub interval: u64,
}

impl View for PollTarget {
    type V = PollTargetData;

    open spec fn view(&self) -> PollTargetData {
        PollTargetData { url: self.url@, interval: self.interval }
    }
}

impl DeepView for PollTarget {
    type V = PollTargetData;

    open spec fn deep_view(&self) -> PollTargetData {
        self.view()
    }
}

impl Clone for PollTarget {
    fn clone(&self) -> (r: Self)
        ensures
            r == *self,
    {
        PollTarget { url: self.url.clone(), interval: self.interval }
    }
}

/// The ticker animation bookkeeping: how many ticks have fired, whether
/// offset advancement is suspended, and how far one tick advances.
#[derive(Clone, Copy, PartialEq, Eq, Structural, Debug)]
pub struct TickerAnimationState {
    pub tick_count: u64,
    pub paused: bool,
    pub pixels_per_tick: u32,
}

/// The closed set of events the dispatcher consumes. The schedulers and
/// the feed source client produce them; nothing else touches the state.
pub enum Event {
    Init,
    AnimationTick,
    RequestRebuild(Vec<FeedItem>),
    PollFired(PollTarget),
    FetchCompleted(PollTarget, Result<Vec<FeedItem>, FetchError>),
    PauseScroll,
    ResumeScroll,
}

/// Mathematical model of an `Event`.
#[verifier::ext_equal]
pub enum EventData {
    Init,
    AnimationTick,
    RequestRebuild(Seq<FeedItemData>),
    PollFired(PollTargetData),
    FetchCompleted(PollTargetData, Result<Seq<FeedItemData>, FetchErrorData>),
    PauseScroll,
    ResumeScroll,
}

impl DeepView for Event {
    type V = EventData;

    open spec fn deep_view(&self) -> EventData {
        match self {
            Event::Init => EventData::Init,
            Event::AnimationTick => EventData::AnimationTick,
            Event::RequestRebuild(items) => EventData::RequestRebuild(items.deep_view()),
            Event::PollFired(t) => EventData::PollFired(t.deep_view()),
            Event::FetchCompleted(t, result) => EventData::FetchCompleted(
                t.deep_view(),
                match result {
                    Ok(items) => Ok(items.deep_view()),
                    Err(e) => Err(e.deep_view()),
                },
            ),
            Event::PauseScroll => EventData::PauseScroll,
            Event::ResumeScroll => EventData::ResumeScroll,
        }
    }
}

/// The commands the dispatcher answers with. The runtime glue executes
/// them: it arms timers, performs fetches off the dispatch thread, and
/// hands rebuilt content to the presentation sink.
pub enum Command {
    /// Arm the animation timer to fire a tick after this many time units.
    ScheduleTick(u64),
    /// Arm the poll timer of this target to fire after this many units.
    SchedulePoll(PollTarget, u64),
    /// Fetch this target's feed off the dispatch thread and post the
    /// outcome back as a completion event.
    StartFetch(PollTarget),
    /// Hand the presentation sink these items to rebuild the strip from.
    EmitRebuild(Vec<FeedItem>),
}

/// Mathematical model of a `Command`.
#[verifier::ext_equal]
pub enum CommandData {
    ScheduleTick(u64),
    SchedulePoll(PollTargetData, u64),
    StartFetch(PollTargetData),
    EmitRebuild(Seq<FeedItemData>),
}

impl DeepView for Command {
    type V = CommandData;

    open spec fn deep_view(&self) -> CommandData {
        match self {
            Command::ScheduleTick(delay) => CommandData::ScheduleTick(*delay),
            Command::SchedulePoll(t, delay) => CommandData::SchedulePoll(t.deep_view(), *delay),
            Command::StartFetch(t) => CommandData::StartFetch(t.deep_view()),
            Command::EmitRebuild(items) => CommandData::EmitRebuild(items.deep_view()),
        }
    }
}

/// The dispatcher and all the mutable state it owns.
pub struct Dispatcher {
    pub feed: FeedState,
    pub anim: TickerAnimationState,
    /// How far the strip has scrolled, in pixels.
    pub scroll_offset: u64,
    /// The retention policy handed to the merge engine.
    pub preserve_items: bool,
    /// The configured feed targets.
    pub targets: Vec<PollTarget>,
    /// Time units between two animation ticks.
    pub tick_period: u64,
    /// Whether the first tick after startup already emitted its rebuild.
    pub initial_rebuild_done: bool,
    /// Set for an orderly shutdown: the tick cycle stops re-arming.
    pub stopped: bool,
    /// The most recent fault, kept for the operator.
    pub last_error: Option<CoreError>,
}

/// Mathematical model of a `Dispatcher`.
#[verifier::ext_equal]
pub struct DispatcherData {
    pub feed: FeedStateData,
    pub anim: TickerAnimationState,
    pub scroll_offset: u64,
    pub preserve_items: bool,
    pub targets: Seq<PollTargetData>,
    pub tick_period: u64,
    pub initial_rebuild_done: bool,
    pub stopped: bool,
    pub last_error: Option<CoreError>,
}

impl View for Dispatcher {
    type V = DispatcherData;

    open spec fn view(&self) -> DispatcherData {
        DispatcherData {
            feed: self.feed@,
            anim: self.anim,
            scroll_offset: self.scroll_offset,
            preserve_items: self.preserve_items,
            targets: self.targets.deep_view(),
            tick_period: self.tick_period,
            initial_rebuild_done: self.initial_rebuild_done,
            stopped: self.stopped,
            last_error: self.last_error,
        }
    }
}

impl DispatcherData {
    /// Well-formedness of the dispatcher: the feed state keeps its
    /// no-duplicate invariant, every cadence is at least one time unit,
    /// and each tick advances the strip by at least one pixel.
    pub open spec fn wf(self) -> bool {
        &&& self.feed.wf()
        &&& self.anim.pixels_per_tick >= 1
        &&& self.tick_period >= 1
        &&& forall|i: int| 0 <= i < self.targets.len() ==> (#[trigger] self.targets[i]).interval
            >= 1
    }
}

/// The position of the first target carrying `url`, looking from
/// position `k` on; the length when no target carries it.
pub open spec fn first_match(targets: Seq<PollTargetData>, url: Seq<char>, k: int) -> int
    decreases targets.len() - k,
{
    if k < 0 || k >= targets.len() {
        targets.len() as int
    } else if targets[k].url == url {
        k
    } else {
        first_match(targets, url, k + 1)
    }
}

/// Whether some configured target carries `url`. An event naming any
/// other URL cannot be routed and is dropped with a diagnostic.
pub open spec fn target_known(targets: Seq<PollTargetData>, url: Seq<char>) -> bool {
    first_match(targets, url, 0) < targets.len()
}

/// The configured target an event's URL routes to: the first carrying it.
pub open spec fn configured_target(targets: Seq<PollTargetData>, url: Seq<char>) -> PollTargetData {
    targets[first_match(targets, url, 0)]
}

/// `first_match` stays within `[k, len]` and, when it found a position,
/// that position carries the URL.
pub proof fn lemma_first_match_range(targets: Seq<PollTargetData>, url: Seq<char>, k: int)
    requires
        0 <= k <= targets.len(),
    ensures
        k <= first_match(targets, url, k) <= targets.len(),
        first_match(targets, url, k) < targets.len() ==> targets[first_match(targets, url, k)].url
            == url,
    decreases targets.len() - k,
{
    if k < targets.len() && targets[k].url != url {
        lemma_first_match_range(targets, url, k + 1);
    }
}

/// A counter that stops at its ceiling instead of wrapping.
pub open spec fn saturating_inc(x: u64) -> u64 {
    if x < u64::MAX {
        (x + 1) as u64
    } else {
        x
    }
}

/// Addition that stops at the ceiling instead of wrapping.
pub open spec fn saturating_add(x: u64, y: u64) -> u64 {
    if x + y <= u64::MAX {
        (x + y) as u64
    } else {
        u64::MAX
    }
}

/// How one event changes the dispatcher's state. A tick advances the
/// count always and the offset only when not paused; a completed fetch
/// for a configured target is merged, synthetic placeholder included on
/// failure; an event naming an unknown target only records the fault;
/// pausing and resuming toggle the flag and nothing else.
pub open spec fn step(d: DispatcherData, event: EventData) -> DispatcherData {
    match event {
        EventData::Init => d,
        EventData::AnimationTick => {
            if d.stopped {
                d
            } else {
                DispatcherData {
                    anim: TickerAnimationState {
                        tick_count: saturating_inc(d.anim.tick_count),
                        ..d.anim
                    },
                    scroll_offset: if d.anim.paused {
                        d.scroll_offset
                    } else {
                        saturating_add(d.scroll_offset, d.anim.pixels_per_tick as u64)
                    },
                    initial_rebuild_done: true,
                    ..d
                }
            }
        },
        EventData::RequestRebuild(_) => d,
        EventData::PollFired(t) => {
            if target_known(d.targets, t.url) {
                d
            } else {
                DispatcherData { last_error: Some(CoreError::UnknownTarget), ..d }
            }
        },
        EventData::FetchCompleted(t, result) => {
            if target_known(d.targets, t.url) {
                DispatcherData { feed: merged(d.feed, batch_of(result), d.preserve_items), ..d }
            } else {
                DispatcherData { last_error: Some(CoreError::UnknownTarget), ..d }
            }
        },
        EventData::PauseScroll => DispatcherData {
            anim: TickerAnimationState { paused: true, ..d.anim },
            ..d
        },
        EventData::ResumeScroll => DispatcherData {
            anim: TickerAnimationState { paused: false, ..d.anim },
            ..d
        },
    }
}

/// One poll-arming command per configured target, at its own cadence.
pub open spec fn poll_commands(targets: Seq<PollTargetData>) -> Seq<CommandData> {
    Seq::new(targets.len(), |i: int| CommandData::SchedulePoll(targets[i], targets[i].interval))
}

/// The commands one event is answered with. Startup arms the tick cycle
/// and every poll cycle. A tick re-arms itself — unless stopped — and the
/// very first one emits a rebuild of the current items, empty or not. A
/// fired poll starts the fetch of its configured target. A completed
/// fetch emits a rebuild exactly when the merge found new items, and
/// re-arms its target's poll unconditionally, at the configured interval.
pub open spec fn step_commands(d: DispatcherData, event: EventData) -> Seq<CommandData> {
    match event {
        EventData::Init => seq![CommandData::ScheduleTick(d.tick_period)] + poll_commands(
            d.targets,
        ),
        EventData::AnimationTick => {
            if d.stopped {
                Seq::empty()
            } else {
                (if d.initial_rebuild_done {
                    Seq::empty()
                } else {
                    seq![CommandData::EmitRebuild(d.feed.items)]
                }) + seq![CommandData::ScheduleTick(d.tick_period)]
            }
        },
        EventData::RequestRebuild(items) => seq![CommandData::EmitRebuild(items)],
        EventData::PollFired(t) => {
            if target_known(d.targets, t.url) {
                seq![CommandData::StartFetch(configured_target(d.targets, t.url))]
            } else {
                Seq::empty()
            }
        },
        EventData::FetchCompleted(t, result) => {
            if target_known(d.targets, t.url) {
                let ct = configured_target(d.targets, t.url);
                (if found_new(d.feed, batch_of(result)) {
                    seq![
                        CommandData::EmitRebuild(
                            merged(d.feed, batch_of(result), d.preserve_items).items,
                        ),
                    ]
                } else {
                    Seq::empty()
                }) + seq![CommandData::SchedulePoll(ct, ct.interval)]
            } else {
                Seq::empty()
            }
        },
        EventData::PauseScroll => Seq::empty(),
        EventData::ResumeScroll => Seq::empty(),
    }
}

/// The target one configured feed polls: its URL, at the feed's cadence,
/// with an unspecified cadence defaulted.
pub open spec fn target_of_feed(f: FeedUrlData) -> PollTargetData {
    PollTargetData {
        url: f.url,
        interval: if f.polling_interval == 0 {
            DEFAULT_POLL_INTERVAL
        } else {
            f.polling_interval as u64
        },
    }
}

/// Copy a rendered item list, for handing it out in a command.
fn clone_items(items: &Vec<FeedItem>) -> (r: Vec<FeedItem>)
    ensures
        r.deep_view() == items.deep_view(),
{
    let mut out: Vec<FeedItem> = Vec::new();
    let mut i: usize = 0;
    while i < items.len()
        invariant
            i <= items.len(),
            out.deep_view().len() == i,
            forall|j: int| 0 <= j < i ==> out.deep_view()[j] == items.deep_view()[j],
        decreases items.len() - i,
    {
        let ghost prev = out.deep_view();
        out.push(items[i].clone());
        proof {
            assert(out.deep_view() =~= prev.push(items.deep_view()[i as int]));
        }
        i += 1;
    }
    proof {
        assert(out.deep_view() =~= items.deep_view());
    }
    out
}

/// The position of the first configured target carrying `url`, if any.
fn target_index(targets: &Vec<PollTarget>, url: &String) -> (r: Option<usize>)
    ensures
        match r {
            Some(i) => i < targets.len() && i as int == first_match(targets.deep_view(), url@, 0),
            None => first_match(targets.deep_view(), url@, 0) == targets.deep_view().len(),
        },
{
    let ghost tv = targets.deep_view();
    let mut i: usize = 0;
    while i < targets.len()
        invariant
            i <= targets.len(),
            tv == targets.deep_view(),
            first_match(tv, url@, 0) == first_match(tv, url@, i as int),
        decreases targets.len() - i,
    {
        if targets[i].url == *url {
            return Some(i);
        }
        i += 1;
    }
    None
}

impl Dispatcher {
    /// The dispatcher a configuration starts with: an empty feed, the
    /// counters at zero, scrolling, one poll target per configured feed.
    pub fn new(config: &Config) -> (r: Dispatcher)
        ensures
            r@.feed == empty_feed_state(),
            r@.anim.tick_count == 0,
            !r@.anim.paused,
            r@.anim.pixels_per_tick == if config@.ticker_speed == 0 {
                1u32
            } else {
                config@.ticker_speed
            },
            r@.scroll_offset == 0,
            r@.preserve_items == config@.preserve_items,
            r@.targets == config@.feeds_urls.map_values(|f: FeedUrlData| target_of_feed(f)),
            r@.tick_period == TICK_PERIOD,
            !r@.initial_rebuild_done,
            !r@.stopped,
            r@.last_error is None,
            r@.wf(),
    {
        let mut targets: Vec<PollTarget> = Vec::new();
        let mut i: usize = 0;
        while i < config.feeds_urls.len()
            invariant
                i <= config.feeds_urls.len(),
                targets.deep_view().len() == i,
                forall|j: int| 0 <= j < i ==> targets.deep_view()[j] == target_of_feed(
                    #[trigger] config.feeds_urls.deep_view()[j],
                ),
            decreases config.feeds_urls.len() - i,
        {
            let f = &config.feeds_urls[i];
            let interval: u64 = if f.polling_interval == 0 {
                DEFAULT_POLL_INTERVAL
            } else {
                f.polling_interval as u64
            };
            let ghost prev = targets.deep_view();
            targets.push(PollTarget { url: f.url.clone(), interval });
            proof {
                assert(targets.deep_view() =~= prev.push(
                    target_of_feed(config.feeds_urls.deep_view()[i as int]),
                ));
            }
            i += 1;
        }
        let speed: u32 = if config.ticker_speed == 0 {
            1
        } else {
            config.ticker_speed
        };
        let r = Dispatcher {
            feed: FeedState::new(),
            anim: TickerAnimationState { tick_count: 0, paused: false, pixels_per_tick: speed },
            scroll_offset: 0,
            preserve_items: config.preserve_items,
            targets,
            tick_period: TICK_PERIOD,
            initial_rebuild_done: false,
            stopped: false,
            last_error: None,
        };
        proof {
            assert(r@.targets =~= config@.feeds_urls.map_values(|f: FeedUrlData| target_of_feed(f)));
        }
        r
    }

    /// Handle one event: mutate the owned state as `step` says and answer
    /// with the commands `step_commands` says — and nothing else. Events
    /// are handled strictly one at a time; this function is the only
    /// mutator of the core's state.
    pub fn handle(&mut self, event: &Event) -> (commands: Vec<Command>)
        requires
            old(self)@.wf(),
        ensures
            final(self)@ == step(old(self)@, event.deep_view()),
            final(self)@.wf(),
            commands.deep_view() == step_commands(old(self)@, event.deep_view()),
    {
        let ghost pre = self@;
        let ghost ev = event.deep_view();
        match event {
            Event::Init => {
                let mut commands: Vec<Command> = Vec::new();
                commands.push(Command::ScheduleTick(self.tick_period));
                let mut i: usize = 0;
                while i < self.targets.len()
                    invariant
                        i <= self.targets.len(),
                        *self == *old(self),
                        pre == self@,
                        commands.deep_view().len() == 1 + i,
                        commands.deep_view()[0] == CommandData::ScheduleTick(pre.tick_period),
                        forall|j: int| 0 <= j < i ==> commands.deep_view()[j + 1]
                            == CommandData::SchedulePoll(
                            #[trigger] pre.targets[j],
                            pre.targets[j].interval,
                        ),
                    decreases self.targets.len() - i,
                {
                    let ghost prev = commands.deep_view();
                    let t = self.targets[i].clone();
                    let delay = t.interval;
                    commands.push(Command::SchedulePoll(t, delay));
                    proof {
                        assert(commands.deep_view() =~= prev.push(
                            CommandData::SchedulePoll(
                                pre.targets[i as int],
                                pre.targets[i as int].interval,
                            ),
                        ));
                    }
                    i += 1;
                }
                proof {
                    assert(commands.deep_view() =~= step_commands(pre, ev));
                }
                commands
            },
            Event::AnimationTick => {
                let mut commands: Vec<Command> = Vec::new();
                if !self.stopped {
                    if !self.initial_rebuild_done {
                        commands.push(Command::EmitRebuild(clone_items(&self.feed.items)));
                    }
                    self.initial_rebuild_done = true;
                    if self.anim.tick_count < u64::MAX {
                        self.anim.tick_count = self.anim.tick_count + 1;
                    }
                    if !self.anim.paused {
                        let advance = self.anim.pixels_per_tick as u64;
                        if self.scroll_offset <= u64::MAX - advance {
                            self.scroll_offset = self.scroll_offset + advance;
                        } else {
                            self.scroll_offset = u64::MAX;
                        }
                    }
                    commands.push(Command::ScheduleTick(self.tick_period));
                }
                proof {
                    assert(self@ =~= step(pre, ev));
                    assert(commands.deep_view() =~= step_commands(pre, ev));
                }
                commands
            },
            Event::RequestRebuild(items) => {
                let mut commands: Vec<Command> = Vec::new();
                commands.push(Command::EmitRebuild(clone_items(items)));
                proof {
                    assert(commands.deep_view() =~= step_commands(pre, ev));
                }
                commands
            },
            Event::PollFired(t) => {
                let mut commands: Vec<Command> = Vec::new();
                match target_index(&self.targets, &t.url) {
                    Some(idx) => {
                        commands.push(Command::StartFetch(self.targets[idx].clone()));
                        proof {
                            assert(commands.deep_view() =~= step_commands(pre, ev));
                        }
                    },
                    None => {
                        self.last_error = Some(CoreError::UnknownTarget);
                        proof {
                            assert(self@ =~= step(pre, ev));
                            assert(commands.deep_view() =~= step_commands(pre, ev));
                        }
                    },
                }
                commands
            },
            Event::FetchCompleted(t, result) => {
                let mut commands: Vec<Command> = Vec::new();
                match target_index(&self.targets, &t.url) {
                    Some(idx) => {
                        let batch: Vec<FeedItem> = match result {
                            Ok(items) => clone_items(items),
                            Err(e) => {
                                let mut v: Vec<FeedItem> = Vec::new();
                                v.push(synthetic_error_item(e));
                                v
                            },
                        };
                        proof {
                            assert(batch.deep_view() =~= batch_of(ev->FetchCompleted_1));
                        }
                        let found = self.feed.merge(&batch, self.preserve_items);
                        if found {
                            commands.push(Command::EmitRebuild(clone_items(&self.feed.items)));
                        }
                        let target = self.targets[idx].clone();
                        let delay = target.interval;
                        commands.push(Command::SchedulePoll(target, delay));
                        proof {
                            assert(self@ =~= step(pre, ev));
                            assert(commands.deep_view() =~= step_commands(pre, ev));
                        }
                    },
                    None => {
                        self.last_error = Some(CoreError::UnknownTarget);
                        proof {
                            assert(self@ =~= step(pre, ev));
                            assert(commands.deep_view() =~= step_commands(pre, ev));
                        }
                    },
                }
                commands
            },
            Event::PauseScroll => {
                self.anim.paused = true;
                proof {
                    assert(self@ =~= step(pre, ev));
                }
                Vec::new()
            },
            Event::ResumeScroll => {
                self.anim.paused = false;
                proof {
                    assert(self@ =~= step(pre, ev));
                }
                Vec::new()
            },
        }
    }

    /// Record that an event could not be handed to the dispatch loop at
    /// all; the loop itself is unreachable, so the fault is kept for the
    /// operator rather than retried.
    pub fn note_dispatch_failure(&mut self)
        ensures
            final(self)@ == (DispatcherData { last_error: Some(CoreError::CouldNotDispatch), ..old(self)@ }),
    {
        self.last_error = Some(CoreError::CouldNotDispatch);
        proof {
            assert(self@ =~= (DispatcherData {
                last_error: Some(CoreError::CouldNotDispatch),
                ..old(self)@
            }));
        }
    }

    /// Orderly shutdown: stop the animation cycle from re-arming itself.
    /// Nothing in flight is aborted; the loop simply winds down.
    pub fn request_stop(&mut self)
        ensures
            final(self)@ == (DispatcherData { stopped: true, ..old(self)@ }),
    {
        self.stopped = true;
        proof {
            assert(self@ =~= (DispatcherData { stopped: true, ..old(self)@ }));
        }
    }
}

/// Whether some command of `cmds` asks the presentation sink to rebuild.
pub open spec fn has_rebuild(cmds: Seq<CommandData>) -> bool {
    exists|i: int| 0 <= i < cmds.len() && cmds[i] is EmitRebuild
}

/// Rebuild gating: among the events that the schedulers and the feed
/// source client produce, a rebuild is requested if and only if the merge
/// of a completed fetch for a configured target found at least one new
/// item, or this is the very first animation tick after startup.
pub proof fn lemma_rebuild_gating(d: DispatcherData, event: EventData)
    requires
        !(event is RequestRebuild),
    ensures
        has_rebuild(step_commands(d, event)) <==> {
            ||| event matches EventData::FetchCompleted(t, result) && target_known(d.targets, t.url)
                && found_new(d.feed, batch_of(result))
            ||| event is AnimationTick && !d.stopped && !d.initial_rebuild_done
        },
{
    let cmds = step_commands(d, event);
    match event {
        EventData::Init => {
            assert forall|i: int| 0 <= i < cmds.len() implies !(cmds[i] is EmitRebuild) by {
                if i == 0 {
                    assert(cmds[i] == CommandData::ScheduleTick(d.tick_period));
                } else {
                    assert(cmds[i] == poll_commands(d.targets)[i - 1]);
                }
            }
        },
        EventData::AnimationTick => {
            if !d.stopped && !d.initial_rebuild_done {
                assert(cmds[0] is EmitRebuild);
            } else {
                assert(forall|i: int| 0 <= i < cmds.len() ==> !(#[trigger] cmds[i] is EmitRebuild));
            }
        },
        EventData::RequestRebuild(_) => {},
        EventData::PollFired(_) => {
            assert(forall|i: int| 0 <= i < cmds.len() ==> !(#[trigger] cmds[i] is EmitRebuild));
        },
        EventData::FetchCompleted(t, result) => {
            if target_known(d.targets, t.url) && found_new(d.feed, batch_of(result)) {
                assert(cmds[0] is EmitRebuild);
            } else {
                assert(forall|i: int| 0 <= i < cmds.len() ==> !(#[trigger] cmds[i] is EmitRebuild));
            }
        },
        EventData::PauseScroll => {},
        EventData::ResumeScroll => {},
    }
}

/// Self-healing polling: a failed fetch for a configured target is
/// answered by re-arming that target's poll at exactly its configured
/// cadence — so recovery is never further away than one interval — and
/// the merged state holds exactly one synthetic item carrying the
/// failure's diagnostic.
pub proof fn lemma_self_healing(d: DispatcherData, t: PollTargetData, error: FetchErrorData)
    requires
        d.wf(),
        target_known(d.targets, t.url),
    ensures
        ({
            let event = EventData::FetchCompleted(t, Err(error));
            let ct = configured_target(d.targets, t.url);
            let cmds = step_commands(d, event);
            &&& cmds.len() >= 1
            &&& cmds.last() == CommandData::SchedulePoll(ct, ct.interval)
            &&& ct.interval >= 1
            &&& count_with_id(step(d, event).feed.items, synthetic_item(error.message()).id) == 1
        }),
{
    let event = EventData::FetchCompleted(t, Err(error));
    let ct = configured_target(d.targets, t.url);
    let cmds = step_commands(d, event);
    let batch = batch_of(Err::<Seq<FeedItemData>, FetchErrorData>(error));
    let synth = synthetic_item(error.message());
    lemma_first_match_range(d.targets, t.url, 0);
    assert(ct.interval >= 1);
    assert(cmds.last() == CommandData::SchedulePoll(ct, ct.interval));

    let out = merged(d.feed, batch, d.preserve_items);
    lemma_merged_wf(d.feed, batch, d.preserve_items);

    // A one-item batch survives deduplication untouched.
    assert(last_occurrence(batch, 0));
    assert(dedup_from(batch, 1) =~= Seq::<FeedItemData>::empty());
    assert(dedup_batch(batch) =~= seq![synth]);

    assert(has_item_with_id(out.items, synth.id)) by {
        if d.preserve_items {
            let fresh = new_from(dedup_batch(batch), d.feed.all_ids, 0);
            if d.feed.all_ids.contains(synth.id) {
                // The id is already retained, so some rendered item
                // carries it, and merging keeps that item.
                let k = choose|k: int|
                    0 <= k < d.feed.all_ids.len() && d.feed.all_ids[k] == synth.id;
                assert(has_item_with_id(d.feed.items, d.feed.all_ids[k]));
                let j = choose|j: int|
                    0 <= j < d.feed.items.len() && d.feed.items[j].id == synth.id;
                assert(out.items[j] == d.feed.items[j]);
            } else {
                // The synthetic item is new and lands at the tail.
                assert(new_from(dedup_batch(batch), d.feed.all_ids, 1)
                    =~= Seq::<FeedItemData>::empty());
                assert(fresh =~= seq![synth]);
                assert(out.items[d.feed.items.len() as int] == synth);
            }
        } else {
            assert(out.items[0] == synth);
        }
    }
    lemma_count_with_id_distinct(out.items, synth.id);
}

/// Pause/resume correctness: while paused, an animation tick still
/// advances the tick count but leaves the scroll offset where it is; the
/// pause and resume events change nothing but the flag, so resuming
/// continues the cadence without a jump.
pub proof fn lemma_pause_resume(d: DispatcherData)
    ensures
        d.anim.paused && !d.stopped ==> step(d, EventData::AnimationTick).scroll_offset
            == d.scroll_offset,
        !d.stopped ==> step(d, EventData::AnimationTick).anim.tick_count == saturating_inc(
            d.anim.tick_count,
        ),
        !d.stopped && d.anim.tick_count < u64::MAX ==> step(
            d,
            EventData::AnimationTick,
        ).anim.tick_count == d.anim.tick_count + 1,
        step(d, EventData::PauseScroll) == (DispatcherData {
            anim: TickerAnimationState { paused: true, ..d.anim },
            ..d
        }),
        step(d, EventData::ResumeScroll) == (DispatcherData {
            anim: TickerAnimationState { paused: false, ..d.anim },
            ..d
        }),
        step(d, EventData::ResumeScroll).scroll_offset == d.scroll_offset,
        step(d, EventData::ResumeScroll).anim.tick_count == d.anim.tick_count,
{
}

} // verus!
