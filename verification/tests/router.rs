use crossbeam_channel::{unbounded, Receiver, Sender};
use status_blocks::custom::{Custom, CustomConfig};
use status_blocks::queue::Task;
use status_blocks::router::{ClickEvent, EventRouter, Signalled};

#[test]
fn subscribers_are_all_blocks_of_that_signal_in_order() {
    let r = EventRouter::new(vec![Some(35), None, Some(40), Some(35)]);
    assert_eq!(r.blocks(), 4);
    assert_eq!(r.subscribers(35), vec![0, 3]);
    assert_eq!(r.subscribers(40), vec![2]);
    assert_eq!(r.subscribers(41), Vec::<usize>::new());
}

#[test]
fn no_blocks_no_subscribers() {
    let r = EventRouter::new(vec![]);
    assert_eq!(r.subscribers(0), Vec::<usize>::new());
    assert_eq!(r.click_target(&ClickEvent { id: 0, button: 1 }), None);
}

#[test]
fn a_click_goes_to_the_block_it_names() {
    let r = EventRouter::new(vec![None, None, None]);
    assert_eq!(r.click_target(&ClickEvent { id: 0, button: 1 }), Some(0));
    assert_eq!(r.click_target(&ClickEvent { id: 2, button: 3 }), Some(2));
    assert_eq!(r.click_target(&ClickEvent { id: 3, button: 1 }), None);
    assert_eq!(r.click_target(&ClickEvent { id: usize::MAX, button: 1 }), None);
}

#[test]
fn negative_and_extreme_signal_numbers_are_plain_numbers() {
    let r = EventRouter::new(vec![Some(-1), Some(i32::MAX), Some(i32::MIN)]);
    assert_eq!(r.subscribers(-1), vec![0]);
    assert_eq!(r.subscribers(i32::MAX), vec![1]);
    assert_eq!(r.subscribers(i32::MIN), vec![2]);
}

fn custom(id: usize, signal: Option<i32>, tx: &Sender<Task>) -> Custom {
    let mut config = CustomConfig::default(None);
    config.signal = signal;
    config.cycle = Some(vec!["a".to_owned(), "b".to_owned()]);
    Custom::new(id, config, 34, 64, tx.clone()).unwrap()
}

#[test]
fn delivery_to_custom_blocks() {
    let (tx, rx): (Sender<Task>, Receiver<Task>) = unbounded();
    let mut blocks = vec![custom(0, Some(1), &tx), custom(1, None, &tx), custom(2, Some(1), &tx)];
    let r = EventRouter::new(blocks.iter().map(|b| b.subscription()).collect());
    let outcomes = r.deliver_signal(&mut blocks, 35, 70);
    assert_eq!(
        outcomes,
        vec![Signalled { id: 0, result: Ok(()) }, Signalled { id: 2, result: Ok(()) }]
    );
    assert_eq!(rx.try_recv(), Ok(Task { id: 0, update_time: 70 }));
    assert_eq!(rx.try_recv(), Ok(Task { id: 2, update_time: 70 }));
    assert!(rx.try_recv().is_err());

    let outcome = r.deliver_click(&mut blocks, &ClickEvent { id: 1, button: 1 }, 80);
    assert_eq!(outcome.map(|o| o.result), Some(Ok(())));
    assert_eq!(rx.try_recv(), Ok(Task { id: 1, update_time: 80 }));
    assert!(rx.try_recv().is_err());
    assert_eq!(blocks[0].command_str(), "a");
    assert_eq!(blocks[1].command_str(), "b");
    assert_eq!(blocks[2].command_str(), "a");

    assert_eq!(r.deliver_click(&mut blocks, &ClickEvent { id: 3, button: 1 }, 90), None);
    assert_eq!(r.deliver_signal(&mut blocks, 36, 90), vec![]);
    assert!(rx.try_recv().is_err());
}

#[test]
fn delivery_with_a_closed_channel_goes_on() {
    let (tx, rx): (Sender<Task>, Receiver<Task>) = unbounded();
    let mut blocks = vec![custom(0, Some(1), &tx), custom(1, Some(1), &tx)];
    drop(rx);
    let r = EventRouter::new(vec![Some(35), Some(35)]);
    let outcomes = r.deliver_signal(&mut blocks, 35, 0);
    assert_eq!(outcomes.len(), 2);
    assert_eq!(outcomes[0].id, 0);
    assert_eq!(outcomes[1].id, 1);
    assert!(outcomes[0].result.is_err() && outcomes[1].result.is_err());
}
