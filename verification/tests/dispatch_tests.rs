use news_ticker::config::{Config, FeedUrl};
use news_ticker::dispatch::{Command, Dispatcher, Event, PollTarget, TICK_PERIOD};
use news_ticker::errors::{CoreError, FetchError};
use news_ticker::feed::FeedItem;

fn item(id: &str, title: &str) -> FeedItem {
    FeedItem {
        id: String::from(id),
        title: String::from(title),
        link: String::from("https://example.org/item"),
        description: None,
        published: None,
    }
}

fn one_feed_config() -> Config {
    let mut config = Config::new();
    config.feeds_urls.push(FeedUrl {
        url: String::from("https://example.org/feed"),
        polling_interval: 10,
    });
    config
}

fn target() -> PollTarget {
    PollTarget {
        url: String::from("https://example.org/feed"),
        interval: 10,
    }
}

fn rebuild_payloads(commands: &[Command]) -> Vec<Vec<String>> {
    commands
        .iter()
        .filter_map(|c| match c {
            Command::EmitRebuild(items) => Some(items.iter().map(|i| i.id.clone()).collect()),
            _ => None,
        })
        .collect()
}

#[test]
fn init_arms_tick_and_every_poll() {
    let mut d = Dispatcher::new(&one_feed_config());
    let commands = d.handle(&Event::Init);
    assert_eq!(commands.len(), 2);
    assert!(matches!(commands[0], Command::ScheduleTick(TICK_PERIOD)));
    match &commands[1] {
        Command::SchedulePoll(t, delay) => {
            assert_eq!(t.url, "https://example.org/feed");
            assert_eq!(*delay, 10);
        }
        _ => panic!("expected a poll to be armed"),
    }
}

#[test]
fn first_fetch_emits_one_rebuild() {
    let mut d = Dispatcher::new(&one_feed_config());
    let commands = d.handle(&Event::FetchCompleted(
        target(),
        Ok(vec![item("a", "A"), item("b", "B")]),
    ));
    let rebuilds = rebuild_payloads(&commands);
    assert_eq!(rebuilds.len(), 1);
    assert_eq!(rebuilds[0], vec!["a".to_string(), "b".to_string()]);
    assert_eq!(d.feed.items.len(), 2);
    match commands.last().unwrap() {
        Command::SchedulePoll(t, delay) => {
            assert_eq!(t.url, "https://example.org/feed");
            assert_eq!(*delay, 10);
        }
        _ => panic!("the poll must be re-armed"),
    }
}

#[test]
fn unchanged_fetch_emits_no_rebuild_but_rearms() {
    let mut d = Dispatcher::new(&one_feed_config());
    d.handle(&Event::FetchCompleted(target(), Ok(vec![item("a", "A")])));
    let commands = d.handle(&Event::FetchCompleted(target(), Ok(vec![item("a", "A")])));
    assert!(rebuild_payloads(&commands).is_empty());
    assert_eq!(commands.len(), 1);
    assert!(matches!(commands[0], Command::SchedulePoll(_, 10)));
}

#[test]
fn fetch_failure_surfaces_diagnostic_and_rearms() {
    let mut d = Dispatcher::new(&one_feed_config());
    let commands = d.handle(&Event::FetchCompleted(
        target(),
        Err(FetchError::Network(String::from("connection refused"))),
    ));
    assert_eq!(d.feed.items.len(), 1);
    assert!(d.feed.items[0].title.contains("connection refused"));
    assert_eq!(d.feed.items[0].link, "");
    match commands.last().unwrap() {
        Command::SchedulePoll(t, delay) => {
            assert_eq!(t.url, "https://example.org/feed");
            assert_eq!(*delay, 10);
        }
        _ => panic!("the poll must be re-armed after a failure"),
    }
    // The same failure again adds no second synthetic item.
    d.handle(&Event::FetchCompleted(
        target(),
        Err(FetchError::Network(String::from("connection refused"))),
    ));
    assert_eq!(d.feed.items.len(), 1);
}

#[test]
fn poll_fired_starts_fetch_of_configured_target() {
    let mut d = Dispatcher::new(&one_feed_config());
    let commands = d.handle(&Event::PollFired(target()));
    assert_eq!(commands.len(), 1);
    match &commands[0] {
        Command::StartFetch(t) => assert_eq!(t.url, "https://example.org/feed"),
        _ => panic!("expected the fetch to start"),
    }
}

#[test]
fn unknown_target_is_dropped_with_diagnostic() {
    let mut d = Dispatcher::new(&one_feed_config());
    let commands = d.handle(&Event::PollFired(PollTarget {
        url: String::from("https://elsewhere.example/feed"),
        interval: 5,
    }));
    assert!(commands.is_empty());
    assert_eq!(d.last_error, Some(CoreError::UnknownTarget));
    assert!(d.feed.items.is_empty());
}

#[test]
fn first_tick_rebuilds_even_when_empty() {
    let mut d = Dispatcher::new(&one_feed_config());
    let commands = d.handle(&Event::AnimationTick);
    let rebuilds = rebuild_payloads(&commands);
    assert_eq!(rebuilds.len(), 1);
    assert!(rebuilds[0].is_empty());
    assert!(matches!(
        commands.last().unwrap(),
        Command::ScheduleTick(TICK_PERIOD)
    ));
}

#[test]
fn later_ticks_do_not_rebuild() {
    let mut d = Dispatcher::new(&one_feed_config());
    d.handle(&Event::AnimationTick);
    let commands = d.handle(&Event::AnimationTick);
    assert!(rebuild_payloads(&commands).is_empty());
    assert_eq!(commands.len(), 1);
    assert!(matches!(commands[0], Command::ScheduleTick(TICK_PERIOD)));
}

#[test]
fn tick_advances_count_and_offset() {
    let mut config = one_feed_config();
    config.ticker_speed = 3;
    let mut d = Dispatcher::new(&config);
    d.handle(&Event::AnimationTick);
    d.handle(&Event::AnimationTick);
    assert_eq!(d.anim.tick_count, 2);
    assert_eq!(d.scroll_offset, 6);
}

#[test]
fn paused_tick_keeps_offset_but_counts() {
    let mut config = one_feed_config();
    config.ticker_speed = 3;
    let mut d = Dispatcher::new(&config);
    d.handle(&Event::AnimationTick);
    assert_eq!(d.scroll_offset, 3);
    d.handle(&Event::PauseScroll);
    d.handle(&Event::AnimationTick);
    d.handle(&Event::AnimationTick);
    assert_eq!(d.scroll_offset, 3);
    assert_eq!(d.anim.tick_count, 3);
    d.handle(&Event::ResumeScroll);
    assert_eq!(d.scroll_offset, 3);
    let commands = d.handle(&Event::AnimationTick);
    assert_eq!(d.scroll_offset, 6);
    assert_eq!(d.anim.tick_count, 4);
    assert!(matches!(
        commands.last().unwrap(),
        Command::ScheduleTick(TICK_PERIOD)
    ));
}

#[test]
fn stopped_dispatcher_stops_rearming_ticks() {
    let mut d = Dispatcher::new(&one_feed_config());
    d.handle(&Event::AnimationTick);
    d.request_stop();
    let commands = d.handle(&Event::AnimationTick);
    assert!(commands.is_empty());
    assert_eq!(d.anim.tick_count, 1);
}

#[test]
fn request_rebuild_is_passed_to_the_sink() {
    let mut d = Dispatcher::new(&one_feed_config());
    let commands = d.handle(&Event::RequestRebuild(vec![item("a", "A")]));
    let rebuilds = rebuild_payloads(&commands);
    assert_eq!(rebuilds.len(), 1);
    assert_eq!(rebuilds[0], vec!["a".to_string()]);
}

#[test]
fn dispatch_failure_is_recorded() {
    let mut d = Dispatcher::new(&one_feed_config());
    d.note_dispatch_failure();
    assert_eq!(d.last_error, Some(CoreError::CouldNotDispatch));
}

#[test]
fn dispatcher_defaults_from_config() {
    let mut config = one_feed_config();
    config.ticker_speed = 0;
    config.feeds_urls.push(FeedUrl {
        url: String::from("https://example.org/other"),
        polling_interval: 0,
    });
    let d = Dispatcher::new(&config);
    assert_eq!(d.anim.pixels_per_tick, 1);
    assert_eq!(d.targets.len(), 2);
    assert_eq!(d.targets[1].interval, 30);
    assert_eq!(d.tick_period, TICK_PERIOD);
    assert!(!d.anim.paused);
    assert_eq!(d.anim.tick_count, 0);
}
