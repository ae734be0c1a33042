use mqtt_relay::broker::{format_delivery, parse_request, Command, Qos};
use mqtt_relay::dispatch::{Delivery, Dispatcher};
use tokio::sync::mpsc::error::TryRecvError;
use tokio::sync::mpsc::{unbounded_channel, UnboundedReceiver};

fn subscribe(topic: &str, qos: Qos) -> Command {
    Command::Subscribe { topic: topic.to_string(), qos }
}

fn publish(topic: &str, message: &str, qos: Qos) -> Command {
    Command::Publish { topic: topic.to_string(), message: message.to_string(), qos }
}

fn pair(topic: &str, message: &str) -> (String, String) {
    (topic.to_string(), message.to_string())
}

fn drain(rx: &mut UnboundedReceiver<(String, String)>) -> Vec<(String, String)> {
    let mut seen = Vec::new();
    while let Ok(item) = rx.try_recv() {
        seen.push(item);
    }
    seen
}

#[test]
fn publish_without_subscribers_is_a_no_op() {
    let mut dispatcher = Dispatcher::new();
    let report = dispatcher.dispatch(publish("sports", "goal", Qos::Low), None);
    assert!(report.is_empty());
    assert!(dispatcher.subscriptions("sports").is_empty());
}

#[test]
fn publish_to_unknown_topic_reaches_no_connection() {
    let mut dispatcher = Dispatcher::new();
    let (tx, mut rx) = unbounded_channel();
    dispatcher.dispatch(subscribe("news", Qos::Low), Some(tx));
    let report = dispatcher.dispatch(publish("sports", "goal", Qos::Low), None);
    assert!(report.is_empty());
    assert_eq!(rx.try_recv(), Err(TryRecvError::Empty));
}

#[test]
fn subscribe_creates_the_entry_and_appends() {
    let mut dispatcher = Dispatcher::new();
    let (first, _rx1) = unbounded_channel();
    let (second, _rx2) = unbounded_channel();
    assert!(dispatcher.dispatch(subscribe("news", Qos::High), Some(first.clone())).is_empty());
    assert!(dispatcher.dispatch(subscribe("news", Qos::Low), Some(second.clone())).is_empty());
    let entry = dispatcher.subscriptions("news");
    assert_eq!(entry.len(), 2);
    assert_eq!(entry[0].qos, Qos::High);
    assert!(entry[0].handle.same_channel(&first));
    assert_eq!(entry[1].qos, Qos::Low);
    assert!(entry[1].handle.same_channel(&second));
}

#[test]
fn subscribe_without_handle_registers_nothing() {
    let mut dispatcher = Dispatcher::new();
    let report = dispatcher.dispatch(subscribe("news", Qos::Low), None);
    assert!(report.is_empty());
    assert!(dispatcher.subscriptions("news").is_empty());
}

#[test]
fn publish_ignores_a_handle_that_comes_with_it() {
    let mut dispatcher = Dispatcher::new();
    let (tx, mut rx) = unbounded_channel();
    let report = dispatcher.dispatch(publish("news", "hello", Qos::Low), Some(tx));
    assert!(report.is_empty());
    assert!(dispatcher.subscriptions("news").is_empty());
    assert!(rx.try_recv().is_err());
}

#[test]
fn delivery_follows_the_policy_table() {
    let levels = [Qos::Low, Qos::Medium, Qos::High];
    for subscriber in levels {
        for publisher in levels {
            let mut dispatcher = Dispatcher::new();
            let (tx, mut rx) = unbounded_channel();
            dispatcher.dispatch(subscribe("t", subscriber), Some(tx));
            let report = dispatcher.dispatch(publish("t", "m", publisher), None);
            let expected = subscriber == Qos::Low || publisher == Qos::Low;
            if expected {
                assert_eq!(report, vec![Delivery { subscriber: 0, accepted: true }]);
                assert_eq!(drain(&mut rx), vec![pair("t", "m")]);
            } else {
                assert!(report.is_empty());
                assert!(drain(&mut rx).is_empty());
            }
        }
    }
}

#[test]
fn low_publish_reaches_a_high_subscriber() {
    let mut dispatcher = Dispatcher::new();
    let (tx, mut rx) = unbounded_channel();
    dispatcher.dispatch(subscribe("t", Qos::High), Some(tx));
    dispatcher.dispatch(publish("t", "m", Qos::Low), None);
    assert_eq!(drain(&mut rx), vec![pair("t", "m")]);
}

#[test]
fn subscribing_twice_delivers_twice() {
    let mut dispatcher = Dispatcher::new();
    let (tx, mut rx) = unbounded_channel();
    dispatcher.dispatch(subscribe("news", Qos::Low), Some(tx.clone()));
    dispatcher.dispatch(subscribe("news", Qos::Low), Some(tx));
    let report = dispatcher.dispatch(publish("news", "hello", Qos::Medium), None);
    assert_eq!(
        report,
        vec![
            Delivery { subscriber: 0, accepted: true },
            Delivery { subscriber: 1, accepted: true }
        ]
    );
    assert_eq!(drain(&mut rx), vec![pair("news", "hello"), pair("news", "hello")]);
}

#[test]
fn messages_arrive_in_publish_order() {
    let mut dispatcher = Dispatcher::new();
    let (tx, mut rx) = unbounded_channel();
    dispatcher.dispatch(subscribe("t", Qos::Low), Some(tx));
    dispatcher.dispatch(publish("t", "a", Qos::Low), None);
    dispatcher.dispatch(publish("t", "b", Qos::Low), None);
    assert_eq!(drain(&mut rx), vec![pair("t", "a"), pair("t", "b")]);
}

#[test]
fn publish_before_subscribe_is_not_kept() {
    let mut dispatcher = Dispatcher::new();
    let (tx, mut rx) = unbounded_channel();
    dispatcher.dispatch(publish("t", "early", Qos::Low), None);
    dispatcher.dispatch(subscribe("t", Qos::Low), Some(tx));
    dispatcher.dispatch(publish("t", "late", Qos::Low), None);
    assert_eq!(drain(&mut rx), vec![pair("t", "late")]);
}

#[test]
fn topics_do_not_leak_into_each_other() {
    let mut dispatcher = Dispatcher::new();
    let (x_tx, mut x_rx) = unbounded_channel();
    let (y_tx, mut y_rx) = unbounded_channel();
    dispatcher.dispatch(subscribe("x", Qos::Low), Some(x_tx));
    dispatcher.dispatch(subscribe("y", Qos::Low), Some(y_tx));
    let report = dispatcher.dispatch(publish("x", "for-x", Qos::Low), None);
    assert_eq!(report.len(), 1);
    assert_eq!(drain(&mut x_rx), vec![pair("x", "for-x")]);
    assert!(drain(&mut y_rx).is_empty());
}

#[test]
fn topics_differ_by_case() {
    let mut dispatcher = Dispatcher::new();
    let (tx, mut rx) = unbounded_channel();
    dispatcher.dispatch(subscribe("News", Qos::Low), Some(tx));
    assert!(dispatcher.dispatch(publish("news", "hello", Qos::Low), None).is_empty());
    assert!(drain(&mut rx).is_empty());
}

#[test]
fn fan_out_goes_in_registration_order() {
    let mut dispatcher = Dispatcher::new();
    let (tx, mut rx) = unbounded_channel();
    let (skipped, mut skipped_rx) = unbounded_channel();
    dispatcher.dispatch(subscribe("t", Qos::Low), Some(tx.clone()));
    dispatcher.dispatch(subscribe("t", Qos::High), Some(skipped));
    dispatcher.dispatch(subscribe("t", Qos::Low), Some(tx));
    let report = dispatcher.dispatch(publish("t", "m", Qos::Medium), None);
    assert_eq!(
        report,
        vec![
            Delivery { subscriber: 0, accepted: true },
            Delivery { subscriber: 2, accepted: true }
        ]
    );
    assert_eq!(drain(&mut rx).len(), 2);
    assert!(drain(&mut skipped_rx).is_empty());
}

#[test]
fn closed_subscriber_does_not_stop_the_fan_out() {
    let mut dispatcher = Dispatcher::new();
    let (gone, gone_rx) = unbounded_channel();
    let (live, mut live_rx) = unbounded_channel();
    dispatcher.dispatch(subscribe("t", Qos::Low), Some(gone));
    dispatcher.dispatch(subscribe("t", Qos::Low), Some(live));
    drop(gone_rx);
    let report = dispatcher.dispatch(publish("t", "m", Qos::Low), None);
    assert_eq!(
        report,
        vec![
            Delivery { subscriber: 0, accepted: false },
            Delivery { subscriber: 1, accepted: true }
        ]
    );
    assert_eq!(drain(&mut live_rx), vec![pair("t", "m")]);
    let again = dispatcher.dispatch(publish("t", "n", Qos::Low), None);
    assert_eq!(again.len(), 2);
    assert_eq!(drain(&mut live_rx), vec![pair("t", "n")]);
}

#[test]
fn dispatch_leaves_stale_subscriptions_in_place() {
    let mut dispatcher = Dispatcher::new();
    let (gone, gone_rx) = unbounded_channel();
    dispatcher.dispatch(subscribe("t", Qos::Low), Some(gone));
    drop(gone_rx);
    dispatcher.dispatch(publish("t", "m", Qos::Low), None);
    assert_eq!(dispatcher.subscriptions("t").len(), 1);
}

#[test]
fn reap_forgets_the_refused_and_keeps_the_rest_in_order() {
    let mut dispatcher = Dispatcher::new();
    let (a, mut a_rx) = unbounded_channel();
    let (b, b_rx) = unbounded_channel();
    let (c, mut c_rx) = unbounded_channel();
    dispatcher.subscribe("t".to_string(), Qos::Low, a.clone());
    dispatcher.subscribe("t".to_string(), Qos::Low, b);
    dispatcher.subscribe("t".to_string(), Qos::Medium, c.clone());
    drop(b_rx);
    let report = dispatcher.publish("t", "m", Qos::Low);
    assert_eq!(dispatcher.reap("t", &report), 1);
    let entry = dispatcher.subscriptions("t");
    assert_eq!(entry.len(), 2);
    assert!(entry[0].handle.same_channel(&a));
    assert_eq!(entry[0].qos, Qos::Low);
    assert!(entry[1].handle.same_channel(&c));
    assert_eq!(entry[1].qos, Qos::Medium);
    let after = dispatcher.publish("t", "n", Qos::Low);
    assert_eq!(
        after,
        vec![
            Delivery { subscriber: 0, accepted: true },
            Delivery { subscriber: 1, accepted: true }
        ]
    );
    assert_eq!(drain(&mut a_rx), vec![pair("t", "m"), pair("t", "n")]);
    assert_eq!(drain(&mut c_rx), vec![pair("t", "m"), pair("t", "n")]);
}

#[test]
fn reap_without_refusals_removes_nothing() {
    let mut dispatcher = Dispatcher::new();
    let (tx, _rx) = unbounded_channel();
    dispatcher.subscribe("t".to_string(), Qos::Low, tx);
    let report = dispatcher.publish("t", "m", Qos::Low);
    assert_eq!(dispatcher.reap("t", &report), 0);
    assert_eq!(dispatcher.reap("unknown", &report), 0);
    assert_eq!(dispatcher.reap("t", &Vec::new()), 0);
    assert_eq!(dispatcher.subscriptions("t").len(), 1);
}

#[test]
fn reap_ignores_positions_beyond_the_entry() {
    let mut dispatcher = Dispatcher::new();
    let (tx, _rx) = unbounded_channel();
    dispatcher.subscribe("t".to_string(), Qos::Low, tx);
    let report = vec![
        Delivery { subscriber: 7, accepted: false },
        Delivery { subscriber: 0, accepted: true },
    ];
    assert_eq!(dispatcher.reap("t", &report), 0);
    assert_eq!(dispatcher.subscriptions("t").len(), 1);
}

#[test]
fn reap_can_empty_an_entry_and_the_topic_can_be_used_again() {
    let mut dispatcher = Dispatcher::new();
    let (gone, gone_rx) = unbounded_channel();
    dispatcher.subscribe("t".to_string(), Qos::Low, gone);
    drop(gone_rx);
    let report = dispatcher.publish("t", "m", Qos::Low);
    assert_eq!(dispatcher.reap("t", &report), 1);
    assert!(dispatcher.subscriptions("t").is_empty());
    assert!(dispatcher.publish("t", "m", Qos::Low).is_empty());
    let (tx, mut rx) = unbounded_channel();
    dispatcher.subscribe("t".to_string(), Qos::Low, tx);
    dispatcher.publish("t", "back", Qos::Low);
    assert_eq!(drain(&mut rx), vec![pair("t", "back")]);
}

#[test]
fn end_to_end_subscribe_then_publish() {
    let mut dispatcher = Dispatcher::new();
    let (tx, mut rx) = unbounded_channel();
    let request = parse_request("SUBSCRIBE news 0").unwrap();
    dispatcher.dispatch(request, Some(tx));
    let request = parse_request("PUBLISH news hello 0").unwrap();
    dispatcher.dispatch(request, None);
    let (topic, message) = rx.try_recv().unwrap();
    assert_eq!(format_delivery(&topic, &message), "news hello");
    assert_eq!(rx.try_recv(), Err(TryRecvError::Empty));
}

#[test]
fn end_to_end_high_on_both_sides_is_silent() {
    let mut dispatcher = Dispatcher::new();
    let (tx, mut rx) = unbounded_channel();
    dispatcher.dispatch(parse_request("SUBSCRIBE news 2").unwrap(), Some(tx));
    let report = dispatcher.dispatch(parse_request("PUBLISH news hello 2").unwrap(), None);
    assert!(report.is_empty());
    assert_eq!(rx.try_recv(), Err(TryRecvError::Empty));
}

#[test]
fn end_to_end_publish_to_topic_without_subscribers() {
    let mut dispatcher = Dispatcher::new();
    let (tx, mut rx) = unbounded_channel();
    dispatcher.dispatch(parse_request("SUBSCRIBE news 0").unwrap(), Some(tx));
    let report = dispatcher.dispatch(parse_request("PUBLISH sports goal 0").unwrap(), None);
    assert!(report.is_empty());
    assert_eq!(rx.try_recv(), Err(TryRecvError::Empty));
}
