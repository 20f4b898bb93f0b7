use esrs::application::{BroadcastHub, JobsiteBroadcast, DEFAULT_CAPACITY};
use esrs::projections::jobsite::Jobsite;

fn created(id: u128, name: &str) -> JobsiteBroadcast {
    JobsiteBroadcast::JobsiteCreated(Jobsite { id, name: name.to_string() })
}

fn updated(id: u128, name: &str) -> JobsiteBroadcast {
    JobsiteBroadcast::JobsiteUpdated(Jobsite { id, name: name.to_string() })
}

#[test]
fn a_new_hub_has_no_subscribers() {
    let hub = BroadcastHub::new(DEFAULT_CAPACITY);
    assert_eq!(hub.capacity(), 16);
    assert_eq!(hub.issued(), 0);
    assert_eq!(hub.receiver_count(), 0);
}

#[test]
fn subscribers_are_numbered_in_the_order_of_joining() {
    let mut hub = BroadcastHub::new(4);
    assert_eq!(hub.subscribe(), 0);
    assert_eq!(hub.subscribe(), 1);
    hub.unsubscribe(0);
    assert_eq!(hub.subscribe(), 2);
    assert_eq!(hub.issued(), 3);
    assert_eq!(hub.receiver_count(), 2);
}

#[test]
fn every_subscriber_receives_a_published_message() {
    let mut hub = BroadcastHub::new(4);
    let workers: Vec<u64> = vec![hub.subscribe(), hub.subscribe(), hub.subscribe()];
    assert_eq!(hub.send(created(1, "Site A")), 3);
    for worker in workers {
        assert_eq!(hub.pending(worker), 1);
        assert_eq!(hub.recv(worker), Some(created(1, "Site A")));
        assert_eq!(hub.recv(worker), None);
    }
}

#[test]
fn a_late_subscriber_receives_nothing_of_what_was_published_before() {
    let mut hub = BroadcastHub::new(4);
    let early = hub.subscribe();
    assert_eq!(hub.send(created(1, "Site A")), 1);
    let late = hub.subscribe();
    assert_eq!(hub.pending(late), 0);
    assert_eq!(hub.recv(late), None);
    assert_eq!(hub.recv(early), Some(created(1, "Site A")));
    assert_eq!(hub.send(updated(1, "Site B")), 2);
    assert_eq!(hub.recv(late), Some(updated(1, "Site B")));
    assert_eq!(hub.recv(early), Some(updated(1, "Site B")));
}

#[test]
fn publishing_without_subscribers_reaches_nobody() {
    let mut hub = BroadcastHub::new(4);
    assert_eq!(hub.send(created(1, "Site A")), 0);
    let late = hub.subscribe();
    assert_eq!(hub.recv(late), None);
}

#[test]
fn messages_are_received_in_the_order_of_publishing() {
    let mut hub = BroadcastHub::new(4);
    let worker = hub.subscribe();
    hub.send(created(1, "A"));
    hub.send(updated(1, "B"));
    hub.send(created(2, "C"));
    assert_eq!(hub.pending(worker), 3);
    assert_eq!(hub.recv(worker), Some(created(1, "A")));
    assert_eq!(hub.recv(worker), Some(updated(1, "B")));
    assert_eq!(hub.recv(worker), Some(created(2, "C")));
    assert_eq!(hub.recv(worker), None);
}

#[test]
fn a_subscriber_with_a_full_queue_misses_the_message() {
    let mut hub = BroadcastHub::new(2);
    let slow = hub.subscribe();
    let fast = hub.subscribe();
    hub.send(created(1, "A"));
    hub.send(created(2, "B"));
    assert_eq!(hub.recv(fast), Some(created(1, "A")));
    assert_eq!(hub.recv(fast), Some(created(2, "B")));
    assert_eq!(hub.send(created(3, "C")), 2);
    assert_eq!(hub.pending(slow), 2);
    assert_eq!(hub.pending(fast), 1);
    assert_eq!(hub.recv(slow), Some(created(1, "A")));
    assert_eq!(hub.recv(slow), Some(created(2, "B")));
    assert_eq!(hub.recv(slow), None);
    assert_eq!(hub.recv(fast), Some(created(3, "C")));
    hub.send(created(4, "D"));
    assert_eq!(hub.recv(slow), Some(created(4, "D")));
}

#[test]
fn a_hub_without_capacity_delivers_nothing() {
    let mut hub = BroadcastHub::new(0);
    let worker = hub.subscribe();
    assert_eq!(hub.send(created(1, "A")), 1);
    assert_eq!(hub.pending(worker), 0);
    assert_eq!(hub.recv(worker), None);
}

#[test]
fn a_subscriber_that_left_receives_nothing() {
    let mut hub = BroadcastHub::new(4);
    let gone = hub.subscribe();
    let stays = hub.subscribe();
    hub.send(created(1, "A"));
    hub.unsubscribe(gone);
    assert_eq!(hub.receiver_count(), 1);
    assert_eq!(hub.pending(gone), 0);
    assert_eq!(hub.recv(gone), None);
    assert_eq!(hub.send(created(2, "B")), 1);
    assert_eq!(hub.pending(stays), 2);
    hub.unsubscribe(gone);
    hub.unsubscribe(99);
    assert_eq!(hub.receiver_count(), 1);
}

#[test]
fn an_unknown_subscriber_has_nothing_pending() {
    let mut hub = BroadcastHub::new(4);
    assert_eq!(hub.pending(5), 0);
    assert_eq!(hub.recv(5), None);
}
