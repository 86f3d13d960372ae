use status_blocks::block::{register, Block, ClickOutcome, Launch};
use status_blocks::error::{Error, ErrorKind};
use status_blocks::queue::Task;
use status_blocks::router::{ClickEvent, Signalled};
use status_blocks::scheduler::{Actions, BlockInfo, Event, Scheduler};
use status_blocks::update::Update;
use status_blocks::widget::{State, Widget};

fn block(update: Update) -> BlockInfo {
    BlockInfo { update, signal: None }
}

fn text(id: usize, text: &str) -> Widget {
    Widget::new(id, text.to_owned())
}

fn three() -> Scheduler {
    let blocks = vec![block(Update::Every(1000)), block(Update::OnDemand), block(Update::Once)];
    Scheduler::new(blocks, 0)
}

#[test]
fn every_block_is_due_when_the_scheduler_starts() {
    let blocks = vec![block(Update::Every(5000)), block(Update::OnDemand), block(Update::Once)];
    let s = Scheduler::new(blocks, 42);
    assert_eq!(s.blocks(), 3);
    assert_eq!(s.wake_time(), Some(42));
    assert_eq!(s.due_time(0), Some(42));
    assert_eq!(s.due_time(1), Some(42));
    assert_eq!(s.due_time(2), Some(42));
    assert_eq!(s.due_time(3), None);
    assert!(!s.is_rendering(0));
    assert_eq!(s.update_interval(0), Some(Update::Every(5000)));
    assert_eq!(s.update_interval(1), Some(Update::OnDemand));
    assert_eq!(s.update_interval(2), Some(Update::Once));
    assert_eq!(s.update_interval(3), None);
}

#[test]
fn a_scheduler_without_blocks_never_wakes() {
    let mut s = Scheduler::new(vec![], 0);
    assert_eq!(s.blocks(), 0);
    assert_eq!(s.wake_time(), None);
    assert_eq!(s.fire(u64::MAX), Vec::<usize>::new());
    assert!(!s.request(Task { id: 0, update_time: 0 }));
    assert!(!s.complete(0, Ok(vec![]), 0));
    assert_eq!(s.emit(), None);
}

#[test]
fn nothing_fires_before_its_due_time() {
    let mut s = Scheduler::new(vec![block(Update::Every(1000))], 10);
    assert_eq!(s.fire(9), Vec::<usize>::new());
    assert!(!s.is_rendering(0));
    assert_eq!(s.due_time(0), Some(10));
    assert_eq!(s.fire(10), vec![0]);
    assert!(s.is_rendering(0));
    assert_eq!(s.due_time(0), None);
    assert_eq!(s.wake_time(), None);
}

#[test]
fn blocks_fire_by_due_time_then_by_id() {
    let mut s = three();
    assert_eq!(s.fire(0), vec![0, 1, 2]);
    for id in 0..3 {
        assert!(s.complete(id, Ok(vec![]), 0));
    }
    assert!(s.request(Task { id: 2, update_time: 500 }));
    assert!(s.request(Task { id: 1, update_time: 1000 }));
    assert_eq!(s.wake_time(), Some(500));
    assert_eq!(s.fire(1000), vec![2, 0, 1]);
}

#[test]
fn a_block_that_is_rendering_is_not_started_again() {
    let mut s = three();
    assert_eq!(s.fire(0), vec![0, 1, 2]);
    assert!(s.request(Task { id: 1, update_time: 5 }));
    assert_eq!(s.fire(5), Vec::<usize>::new());
    assert!(s.is_rendering(1));
    assert_eq!(s.due_time(1), None);
    assert!(s.complete(1, Ok(vec![]), 6));
    assert!(!s.is_rendering(1));
    assert_eq!(s.fire(100), Vec::<usize>::new());
    assert!(s.request(Task { id: 1, update_time: 7 }));
    assert_eq!(s.fire(7), vec![1]);
}

#[test]
fn a_request_that_is_due_after_the_render_ends_is_kept() {
    let mut s = three();
    s.fire(0);
    assert!(s.request(Task { id: 1, update_time: 50 }));
    assert!(s.complete(1, Ok(vec![]), 20));
    assert_eq!(s.due_time(1), Some(50));
    assert_eq!(s.fire(50), vec![1]);
}

#[test]
fn an_interval_counts_from_the_end_of_the_render() {
    let mut s = Scheduler::new(vec![block(Update::Every(5000))], 0);
    assert_eq!(s.fire(0), vec![0]);
    assert!(s.complete(0, Ok(vec![text(0, "a")]), 1234));
    assert_eq!(s.due_time(0), Some(6234));
    assert_eq!(s.wake_time(), Some(6234));
    assert_eq!(s.fire(6233), Vec::<usize>::new());
    assert_eq!(s.fire(6234), vec![0]);
    assert!(s.complete(0, Ok(vec![text(0, "b")]), 6300));
    assert_eq!(s.due_time(0), Some(11300));
}

#[test]
fn an_interval_of_zero_is_due_at_once() {
    let mut s = Scheduler::new(vec![block(Update::Every(0))], 0);
    assert_eq!(s.fire(0), vec![0]);
    assert!(s.complete(0, Ok(vec![]), 17));
    assert_eq!(s.due_time(0), Some(17));
    assert_eq!(s.fire(17), vec![0]);
}

#[test]
fn an_interval_may_end_at_the_last_instant() {
    let mut s = Scheduler::new(vec![block(Update::Every(5))], 0);
    s.fire(0);
    assert!(s.complete(0, Ok(vec![]), u64::MAX - 5));
    assert_eq!(s.due_time(0), Some(u64::MAX));
    assert_eq!(s.fire(u64::MAX - 1), Vec::<usize>::new());
    assert_eq!(s.fire(u64::MAX), vec![0]);
}

#[test]
fn an_interval_beyond_the_last_instant_is_never_due() {
    let mut s = Scheduler::new(vec![block(Update::Every(5)), block(Update::Every(5))], 0);
    s.fire(0);
    assert!(s.complete(0, Ok(vec![]), u64::MAX - 4));
    assert_eq!(s.due_time(0), None);
    assert!(!s.is_rendering(0));
    assert!(s.complete(1, Ok(vec![]), 1));
    assert_eq!(s.wake_time(), Some(6));
    assert!(s.request(Task { id: 0, update_time: u64::MAX }));
    assert_eq!(s.due_time(0), Some(u64::MAX));
}

#[test]
fn an_earlier_request_beats_the_interval() {
    let mut s = Scheduler::new(vec![block(Update::Every(5000))], 0);
    s.fire(0);
    assert!(s.request(Task { id: 0, update_time: 3000 }));
    assert!(s.complete(0, Ok(vec![]), 1000));
    assert_eq!(s.due_time(0), Some(3000));
}

#[test]
fn a_later_request_does_not_delay_the_interval() {
    let mut s = Scheduler::new(vec![block(Update::Every(5000))], 0);
    s.fire(0);
    assert!(s.complete(0, Ok(vec![]), 1000));
    assert!(s.request(Task { id: 0, update_time: 9000 }));
    assert_eq!(s.due_time(0), Some(6000));
    assert!(s.request(Task { id: 0, update_time: 2000 }));
    assert_eq!(s.due_time(0), Some(2000));
}

#[test]
fn once_and_on_demand_get_no_task_after_a_render() {
    let mut s = three();
    s.fire(0);
    assert!(s.complete(1, Ok(vec![]), 3));
    assert!(s.complete(2, Ok(vec![]), 4));
    assert_eq!(s.due_time(1), None);
    assert_eq!(s.due_time(2), None);
    assert!(s.complete(0, Ok(vec![]), 5));
    assert_eq!(s.wake_time(), Some(1005));
    assert_eq!(s.fire(u64::MAX), vec![0]);
}

#[test]
fn a_request_for_an_unknown_block_is_dropped() {
    let mut s = three();
    assert!(!s.request(Task { id: 3, update_time: 0 }));
    assert_eq!(s.due_time(3), None);
    assert_eq!(s.fire(0), vec![0, 1, 2]);
}

#[test]
fn a_completion_without_a_render_changes_nothing() {
    let mut s = three();
    assert!(!s.complete(0, Ok(vec![text(0, "x")]), 7));
    assert!(!s.complete(9, Ok(vec![text(9, "x")]), 7));
    assert_eq!(s.due_time(0), Some(0));
    assert_eq!(s.emit(), None);
    s.fire(0);
    assert!(s.complete(0, Ok(vec![text(0, "x")]), 7));
    assert!(!s.complete(0, Ok(vec![text(0, "y")]), 8));
    assert_eq!(s.emit(), Some(vec![text(0, "x")]));
}

#[test]
fn the_frame_lists_blocks_in_configured_order() {
    let mut s = three();
    s.fire(0);
    assert!(s.complete(2, Ok(vec![text(2, "c")]), 1));
    assert!(s.complete(0, Ok(vec![text(0, "a")]), 2));
    assert!(s.complete(1, Ok(vec![text(1, "b1"), text(1, "b2")]), 3));
    assert_eq!(s.emit(), Some(vec![text(0, "a"), text(1, "b1"), text(1, "b2"), text(2, "c")]));
    assert_eq!(s.emit(), None);
}

#[test]
fn every_completion_makes_the_frame_stale() {
    let mut s = Scheduler::new(vec![block(Update::Every(10))], 0);
    s.fire(0);
    s.complete(0, Ok(vec![text(0, "a")]), 0);
    assert_eq!(s.emit(), Some(vec![text(0, "a")]));
    s.fire(10);
    s.complete(0, Ok(vec![text(0, "a")]), 10);
    assert_eq!(s.emit(), Some(vec![text(0, "a")]));
}

#[test]
fn a_failed_render_is_shown_as_an_error_widget() {
    let mut s = three();
    s.fire(0);
    let e = Error::new(ErrorKind::Render, "custom", "Error parsing JSON: eof".to_owned());
    assert!(s.complete(1, Err(e), 5));
    assert!(s.complete(0, Ok(vec![text(0, "a")]), 5));
    let frame = s.emit().unwrap();
    assert_eq!(frame.len(), 2);
    assert_eq!(frame[0], text(0, "a"));
    let shown = Widget {
        id: 1,
        text: "Error parsing JSON: eof".to_owned(),
        icon: None,
        state: State::Error,
    };
    assert_eq!(frame[1], shown);
}

#[test]
fn a_failed_render_harms_no_other_block() {
    let mut s = Scheduler::new(vec![block(Update::Every(1000)), block(Update::Every(300))], 0);
    assert_eq!(s.fire(0), vec![0, 1]);
    assert!(s.complete(1, Ok(vec![text(1, "b")]), 0));
    let e = Error::new(ErrorKind::Render, "custom", "boom".to_owned());
    assert!(s.complete(0, Err(e), 100));
    assert_eq!(s.due_time(1), Some(300));
    assert_eq!(s.due_time(0), Some(1100));
    assert_eq!(s.fire(300), vec![1]);
    assert_eq!(s.fire(1100), vec![0]);
    let e = Error::new(ErrorKind::Render, "custom", "boom again".to_owned());
    assert!(s.complete(0, Err(e), 1200));
    assert_eq!(s.due_time(0), Some(2200));
}

#[test]
fn signals_go_to_their_subscribers() {
    let s = Scheduler::new(
        vec![
            BlockInfo { update: Update::OnDemand, signal: Some(36) },
            BlockInfo { update: Update::OnDemand, signal: None },
            BlockInfo { update: Update::Once, signal: Some(36) },
            BlockInfo { update: Update::Once, signal: Some(37) },
        ],
        0,
    );
    assert_eq!(s.route_signal(36), vec![0, 2]);
    assert_eq!(s.route_signal(37), vec![3]);
    assert_eq!(s.route_signal(38), Vec::<usize>::new());
}

#[test]
fn clicks_go_to_the_block_they_name() {
    let s = three();
    assert_eq!(s.route_click(&ClickEvent { id: 1, button: 1 }), Some(1));
    assert_eq!(s.route_click(&ClickEvent { id: 3, button: 1 }), None);
}

#[test]
fn update_tells_when_a_block_is_due_again() {
    assert_eq!(Update::Every(5000).due_after(1), Some(5001));
    assert_eq!(Update::Every(0).due_after(u64::MAX), Some(u64::MAX));
    assert_eq!(Update::Every(1).due_after(u64::MAX), None);
    assert_eq!(Update::Every(u64::MAX).due_after(0), Some(u64::MAX));
    assert_eq!(Update::Every(u64::MAX).due_after(1), None);
    assert_eq!(Update::OnDemand.due_after(u64::MAX), None);
    assert_eq!(Update::Once.due_after(7), None);
}

/// A block that records what it is told.
#[derive(Debug, PartialEq)]
struct Probe {
    id: usize,
    update: Update,
    signal: Option<i32>,
    fails: bool,
    signals: Vec<(i32, u64)>,
    clicks: Vec<(ClickEvent, u64)>,
}

impl Probe {
    fn new(id: usize, update: Update, signal: Option<i32>) -> Probe {
        Probe { id, update, signal, fails: false, signals: vec![], clicks: vec![] }
    }

    fn failing(id: usize, signal: Option<i32>) -> Probe {
        Probe { fails: true, ..Probe::new(id, Update::Once, signal) }
    }

    fn failure(&self, kind: ErrorKind) -> Error {
        Error::new(kind, "probe", format!("block {} failed", self.id))
    }
}

impl Block for Probe {
    fn id(&self) -> usize {
        self.id
    }

    fn update_interval(&self) -> Update {
        self.update
    }

    fn subscription(&self) -> Option<i32> {
        self.signal
    }

    fn signal(&mut self, signal: i32, now: u64) -> Result<(), Error> {
        self.signals.push((signal, now));
        if self.fails {
            Err(self.failure(ErrorKind::Signal))
        } else {
            Ok(())
        }
    }

    fn click(&mut self, event: &ClickEvent, now: u64) -> ClickOutcome {
        self.clicks.push((*event, now));
        let launch = Launch { shell: "sh".to_owned(), command: format!("echo {}", self.id) };
        if self.fails {
            ClickOutcome { launch: None, result: Err(self.failure(ErrorKind::Click)) }
        } else {
            ClickOutcome { launch: Some(launch), result: Ok(()) }
        }
    }
}

fn probes() -> Vec<Probe> {
    vec![
        Probe::new(0, Update::Every(1000), None),
        Probe::new(1, Update::OnDemand, None),
        Probe::new(2, Update::Once, None),
    ]
}

fn nothing() -> Actions {
    Actions { signalled: vec![], clicked: None, start: vec![], frame: None }
}

#[test]
fn blocks_are_registered_in_their_order() {
    let blocks = vec![
        Probe::new(0, Update::Every(7), Some(40)),
        Probe::new(1, Update::Once, None),
        Probe::new(2, Update::OnDemand, Some(35)),
    ];
    assert_eq!(
        register(&blocks),
        Some(vec![
            BlockInfo { update: Update::Every(7), signal: Some(40) },
            BlockInfo { update: Update::Once, signal: None },
            BlockInfo { update: Update::OnDemand, signal: Some(35) },
        ])
    );
    assert_eq!(register(&Vec::<Probe>::new()), Some(vec![]));
}

#[test]
fn blocks_whose_ids_are_not_their_places_are_refused() {
    let probe = |id: usize| Probe::new(id, Update::Once, None);
    assert_eq!(register(&vec![probe(1)]), None);
    assert_eq!(register(&vec![probe(0), probe(2)]), None);
    assert_eq!(register(&vec![probe(1), probe(0)]), None);
    assert_eq!(register(&vec![probe(0), probe(0)]), None);
    assert_eq!(register(&vec![probe(0), probe(1), probe(usize::MAX)]), None);
    assert!(register(&vec![probe(0), probe(1), probe(2)]).is_some());
}

#[test]
fn waking_starts_what_is_due() {
    let mut blocks = probes();
    let mut s = Scheduler::new(register(&blocks).unwrap(), 0);
    let all = Actions { start: vec![0, 1, 2], ..nothing() };
    assert_eq!(s.handle(&mut blocks, Event::Wake, 0), all);
    assert_eq!(s.handle(&mut blocks, Event::Wake, 0), nothing());
    assert_eq!(s.handle(&mut blocks, Event::Wake, u64::MAX), nothing());
    assert_eq!(blocks, probes());
}

#[test]
fn the_end_of_a_render_gives_a_frame() {
    let mut blocks = probes();
    let mut s = Scheduler::new(register(&blocks).unwrap(), 0);
    s.handle(&mut blocks, Event::Wake, 0);
    let done = Event::Completed { id: 1, result: Ok(vec![text(1, "b")]) };
    let frame = Some(vec![text(1, "b")]);
    assert_eq!(s.handle(&mut blocks, done, 10), Actions { frame, ..nothing() });
    let done = Event::Completed { id: 0, result: Ok(vec![text(0, "a")]) };
    let frame = Some(vec![text(0, "a"), text(1, "b")]);
    assert_eq!(s.handle(&mut blocks, done, 20), Actions { frame, ..nothing() });
    assert_eq!(s.due_time(0), Some(1020));
    assert_eq!(s.handle(&mut blocks, Event::Wake, 1019), nothing());
    assert_eq!(s.handle(&mut blocks, Event::Wake, 1020), Actions { start: vec![0], ..nothing() });
    assert_eq!(blocks, probes());
}

#[test]
fn a_block_with_no_interval_left_starts_again_at_once() {
    let mut blocks = vec![Probe::new(0, Update::Every(0), None)];
    let mut s = Scheduler::new(register(&blocks).unwrap(), 0);
    s.handle(&mut blocks, Event::Wake, 0);
    let done = Event::Completed { id: 0, result: Ok(vec![]) };
    assert_eq!(
        s.handle(&mut blocks, done, 5),
        Actions { start: vec![0], frame: Some(vec![]), ..nothing() }
    );
    assert!(s.is_rendering(0));
}

#[test]
fn a_request_that_is_due_starts_its_block() {
    let mut blocks = probes();
    let mut s = Scheduler::new(register(&blocks).unwrap(), 0);
    s.handle(&mut blocks, Event::Wake, 0);
    s.handle(&mut blocks, Event::Completed { id: 1, result: Ok(vec![]) }, 1);
    let request = Event::Request(Task { id: 1, update_time: 1500 });
    assert_eq!(s.handle(&mut blocks, request, 1400), nothing());
    assert_eq!(s.wake_time(), Some(1500));
    let request = Event::Request(Task { id: 1, update_time: 1450 });
    assert_eq!(s.handle(&mut blocks, request, 1450), Actions { start: vec![1], ..nothing() });
    let request = Event::Request(Task { id: 7, update_time: 0 });
    assert_eq!(s.handle(&mut blocks, request, 1460), nothing());
}

#[test]
fn a_signal_is_told_to_its_subscribers_and_to_no_one_else() {
    let mut blocks = vec![
        Probe::new(0, Update::Once, Some(36)),
        Probe::new(1, Update::Once, None),
        Probe::new(2, Update::Once, Some(36)),
        Probe::new(3, Update::Once, Some(37)),
    ];
    let mut s = Scheduler::new(register(&blocks).unwrap(), 0);
    s.handle(&mut blocks, Event::Wake, 0);
    let told = vec![Signalled { id: 0, result: Ok(()) }, Signalled { id: 2, result: Ok(()) }];
    assert_eq!(
        s.handle(&mut blocks, Event::Signal(36), 5),
        Actions { signalled: told, ..nothing() }
    );
    assert_eq!(s.handle(&mut blocks, Event::Signal(38), 6), nothing());
    assert_eq!(blocks[0].signals, vec![(36, 5)]);
    assert_eq!(blocks[1].signals, vec![]);
    assert_eq!(blocks[2].signals, vec![(36, 5)]);
    assert_eq!(blocks[3].signals, vec![]);
}

#[test]
fn a_failing_handler_does_not_stop_the_delivery() {
    let mut blocks = vec![
        Probe::failing(0, Some(36)),
        Probe::new(1, Update::Once, Some(36)),
        Probe::failing(2, Some(36)),
        Probe::new(3, Update::Once, Some(36)),
    ];
    let mut s = Scheduler::new(register(&blocks).unwrap(), 0);
    let actions = s.handle(&mut blocks, Event::Signal(36), 9);
    let failure =
        |id: usize| Error::new(ErrorKind::Signal, "probe", format!("block {} failed", id));
    assert_eq!(
        actions.signalled,
        vec![
            Signalled { id: 0, result: Err(failure(0)) },
            Signalled { id: 1, result: Ok(()) },
            Signalled { id: 2, result: Err(failure(2)) },
            Signalled { id: 3, result: Ok(()) },
        ]
    );
    assert_eq!(actions.start, vec![0, 1, 2, 3]);
    for block in &blocks {
        assert_eq!(block.signals, vec![(36, 9)]);
    }
    let click = ClickEvent { id: 2, button: 1 };
    let actions = s.handle(&mut blocks, Event::Click(click), 10);
    let outcome = ClickOutcome { launch: None, result: Err(blocks[2].failure(ErrorKind::Click)) };
    assert_eq!(actions, Actions { clicked: Some(outcome), ..nothing() });
    assert_eq!(s.handle(&mut blocks, Event::Signal(36), 11).signalled.len(), 4);
}

#[test]
fn a_click_is_told_to_the_block_it_names_and_to_no_other() {
    let mut blocks = probes();
    let mut s = Scheduler::new(register(&blocks).unwrap(), 0);
    assert_eq!(s.handle(&mut blocks, Event::Wake, 0).start, vec![0, 1, 2]);
    assert!(s.is_rendering(0) && s.is_rendering(1) && s.is_rendering(2));
    let click = ClickEvent { id: 1, button: 3 };
    let launch = Launch { shell: "sh".to_owned(), command: "echo 1".to_owned() };
    let outcome = ClickOutcome { launch: Some(launch), result: Ok(()) };
    assert_eq!(
        s.handle(&mut blocks, Event::Click(click), 2),
        Actions { clicked: Some(outcome), ..nothing() }
    );
    assert_eq!(blocks[0].clicks, vec![]);
    assert_eq!(blocks[1].clicks, vec![(click, 2)]);
    assert_eq!(blocks[2].clicks, vec![]);
    let click = Event::Click(ClickEvent { id: 3, button: 1 });
    assert_eq!(s.handle(&mut blocks, click, 2), nothing());
    assert_eq!(blocks[1].clicks.len(), 1);
}

#[test]
fn blocks_that_the_scheduler_does_not_know_are_never_told() {
    let mut blocks = vec![
        Probe::new(0, Update::Once, Some(36)),
        Probe::new(1, Update::Once, Some(36)),
        Probe::new(2, Update::Once, Some(36)),
    ];
    let mut s = Scheduler::new(vec![BlockInfo { update: Update::Once, signal: Some(36) }], 0);
    let actions = s.handle(&mut blocks, Event::Signal(36), 0);
    assert_eq!(actions.signalled, vec![Signalled { id: 0, result: Ok(()) }]);
    let click = Event::Click(ClickEvent { id: 1, button: 1 });
    assert_eq!(s.handle(&mut blocks, click, 0), nothing());
    assert_eq!(blocks[1], Probe::new(1, Update::Once, Some(36)));
    assert_eq!(blocks[2], Probe::new(2, Update::Once, Some(36)));

    let mut none: Vec<Probe> = vec![];
    let mut s = Scheduler::new(register(&probes()).unwrap(), 0);
    let actions = s.handle(&mut none, Event::Click(ClickEvent { id: 0, button: 1 }), 0);
    assert_eq!(actions, Actions { start: vec![0, 1, 2], ..nothing() });
}

#[test]
fn a_failed_render_goes_into_the_frame() {
    let mut blocks = probes();
    let mut s = Scheduler::new(register(&blocks).unwrap(), 0);
    s.handle(&mut blocks, Event::Wake, 0);
    let e = Error::new(ErrorKind::Render, "custom", "no luck".to_owned());
    let actions = s.handle(&mut blocks, Event::Completed { id: 2, result: Err(e) }, 3);
    let shown = Widget { id: 2, text: "no luck".to_owned(), icon: None, state: State::Error };
    assert_eq!(actions, Actions { frame: Some(vec![shown]), ..nothing() });
    assert!(!s.is_rendering(2));
    assert_eq!(s.due_time(2), None);
}
