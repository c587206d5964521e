use rlink::channel::{named_channel, named_channel_with_base, ChannelBaseOn, ChannelModeError, TryRecvError, TrySendError};
use rlink::element::Element;
use rlink::system_input::{deliver, decide_poll, AlignedInput, AlignedPoll, ChannelIterator, CoordinatorStatus, InputPoll, MultiChannelIterator, Trial, classify_receive};
use rlink::element::Record;

#[test]
fn backpressure_bounded_channel_of_four() {
    let (mut tx, mut rx) = named_channel_with_base::<u32>("edge", vec![], 4, ChannelBaseOn::Bounded);
    let mut refused = 0;
    let mut next = 0u32;
    for _ in 0..10 {
        match tx.try_send(next) {
            Ok(()) => next += 1,
            Err(TrySendError::Full(v)) => {
                assert_eq!(v, next);
                refused += 1;
            }
            Err(TrySendError::Disconnected(_)) => panic!("closed"),
        }
        assert!(rx.len() <= 4);
    }
    assert_eq!(rx.len(), 4);
    assert_eq!(refused, 6);
    assert_eq!(rx.try_recv(), Ok(0));
    assert!(tx.try_send(next).is_ok());
    assert_eq!(tx.accepted() - rx.drained(), rx.len() as u64);
    let mut got = Vec::new();
    while let Ok(v) = rx.try_recv() {
        got.push(v);
    }
    assert_eq!(got, vec![1, 2, 3, 4]);
    assert_eq!(tx.accepted(), 5);
    assert_eq!(rx.drained(), 5);
}

#[test]
fn closed_channel_drains_then_disconnects() {
    let (mut tx, mut rx) = named_channel::<u8>("c", vec![], 0);
    assert_eq!(rx.try_recv(), Err(TryRecvError::Empty));
    tx.try_send(1).unwrap();
    drop(tx);
    assert_eq!(rx.try_recv(), Ok(1));
    assert_eq!(rx.try_recv(), Err(TryRecvError::Disconnected));
}

#[test]
fn channel_mode_parsing() {
    assert_eq!(ChannelBaseOn::try_from("BOUNDED").unwrap(), ChannelBaseOn::Bounded);
    assert_eq!(ChannelBaseOn::try_from("Unbounded").unwrap(), ChannelBaseOn::Unbounded);
    match ChannelBaseOn::try_from("Ring") {
        Err(ChannelModeError::Unsupported(s)) => assert_eq!(s, "ring"),
        Ok(_) => panic!("accepted"),
    }
    assert_eq!(ChannelBaseOn::Bounded.to_string(), "Bounded");
    assert_eq!(ChannelBaseOn::Unbounded.to_string(), "Unbounded");
}

#[test]
fn named_bounded_channel_counts_and_refuses_when_full() {
    let (mut tx, mut rx) = named_channel_with_base::<u32>("edge", vec![], 2, ChannelBaseOn::Bounded);
    assert_eq!(tx.name(), "edge");
    assert_eq!(tx.capacity(), 2);
    assert_eq!(tx.base_on(), ChannelBaseOn::Bounded);
    tx.try_send(1).unwrap();
    tx.send(2).unwrap();
    assert!(matches!(tx.try_send(3), Err(TrySendError::Full(3))));
    assert_eq!(tx.accepted(), 2);
    assert_eq!(rx.len(), 2);
    assert_eq!(rx.try_recv(), Ok(1));
    assert_eq!(rx.recv(), Some(2));
    assert_eq!(rx.try_recv(), Err(TryRecvError::Empty));
    assert_eq!(rx.drained(), 2);
    drop(tx);
    assert_eq!(rx.recv(), None);
}

#[test]
fn named_channel_is_unbounded() {
    let (mut tx, rx) = named_channel::<u32>("wide", vec![], 1);
    for i in 0..100 {
        tx.try_send(i).unwrap();
    }
    assert_eq!(rx.len(), 100);
    assert_eq!(rx.name(), "wide");
}

#[test]
fn channel_iterator_stops_on_disconnect_and_termination() {
    let (mut tx, rx) = named_channel::<Element>("in", vec![], 0);
    tx.send(Element::Watermark(1)).unwrap();
    tx.send(Element::Watermark(2)).unwrap();
    let status = CoordinatorStatus::new();
    let mut it = ChannelIterator::new(rx);
    assert!(matches!(it.next(&status), Some(Element::Watermark(1))));
    status.share().terminate();
    assert!(it.next(&status).is_none());
    drop(tx);
    assert!(it.next(&CoordinatorStatus::new()).is_none());
}

#[test]
fn multi_channel_iterator_serves_channels_in_turn() {
    let (mut a, ra) = named_channel::<Element>("a", vec![], 0);
    let (mut b, rb) = named_channel::<Element>("b", vec![], 0);
    for i in 0..3 {
        a.send(Element::Barrier(i)).unwrap();
        b.send(Element::Watermark(i as i64)).unwrap();
    }
    let status = CoordinatorStatus::new();
    let mut it = MultiChannelIterator::new(vec![ra, rb]);
    let mut kinds = Vec::new();
    for _ in 0..6 {
        match it.next(&status) {
            InputPoll::Element(0, Element::Barrier(_)) => kinds.push('a'),
            InputPoll::Element(1, Element::Watermark(_)) => kinds.push('b'),
            other => panic!("unexpected {:?}", other),
        }
    }
    assert_eq!(kinds, vec!['a', 'b', 'a', 'b', 'a', 'b']);
    drop(a);
    drop(b);
    assert!(matches!(it.next(&status), InputPoll::Finished));
}

#[test]
fn deliver_and_decide_poll() {
    assert!(matches!(deliver(Some(Element::Barrier(1)), false), Some(Element::Barrier(1))));
    assert!(deliver(Some(Element::Barrier(1)), true).is_none());
    assert!(deliver(None, false).is_none());
    assert!(matches!(decide_poll(Some((1, Element::Barrier(2))), false, false), InputPoll::Element(1, Element::Barrier(2))));
    assert!(matches!(decide_poll(Some((1, Element::Barrier(2))), false, true), InputPoll::Finished));
    assert!(matches!(decide_poll(None, true, false), InputPoll::Finished));
    assert!(matches!(decide_poll(None, false, true), InputPoll::Finished));
    assert!(matches!(decide_poll(None, false, false), InputPoll::Idle));
}

#[test]
fn bounded_receiver_len_within_capacity() {
    let (mut tx, rx) = named_channel_with_base::<u32>("g", vec![], 3, ChannelBaseOn::Bounded);
    for i in 0..5 {
        let _ = tx.try_send(i);
    }
    assert_eq!(rx.len(), 3);
}

#[test]
fn poll_skips_disconnected_and_idles_on_empty() {
    let (a, ra) = named_channel::<Element>("a", vec![], 0);
    let (mut b, rb) = named_channel::<Element>("b", vec![], 0);
    drop(a);
    let status = CoordinatorStatus::new();
    let mut it = MultiChannelIterator::new(vec![ra, rb]);
    let (r, trials) = it.poll(&status);
    assert!(matches!(r, InputPoll::Idle));
    assert_eq!(trials, vec![Trial::Disconnected, Trial::Empty]);
    b.send(Element::Watermark(5)).unwrap();
    let (r, trials) = it.poll(&status);
    assert!(matches!(r, InputPoll::Element(1, Element::Watermark(5))));
    assert_eq!(trials, vec![Trial::Skipped, Trial::Taken]);
    drop(b);
    let (r, trials) = it.poll(&status);
    assert!(matches!(r, InputPoll::Finished));
    assert_eq!(trials, vec![Trial::Skipped, Trial::Disconnected]);
    let (r, trials) = it.poll(&status);
    assert!(matches!(r, InputPoll::Finished));
    assert_eq!(trials, vec![Trial::Skipped, Trial::Skipped]);
}

fn rec(t: i64) -> Element {
    Element::Record(Record::new(t, None, vec![]))
}

#[test]
fn aligned_input_holds_records_after_barrier() {
    let (mut a, ra) = named_channel::<Element>("a", vec![], 0);
    let (mut b, rb) = named_channel::<Element>("b", vec![], 0);
    for e in [rec(1), Element::Barrier(5), rec(2)] {
        a.send(e).unwrap();
    }
    for e in [rec(3), rec(4), Element::Barrier(5)] {
        b.send(e).unwrap();
    }
    let status = CoordinatorStatus::new();
    let mut input = AlignedInput::new(MultiChannelIterator::new(vec![ra, rb]));
    let mut out: Vec<Element> = Vec::new();
    for _ in 0..6 {
        match input.next(&status) {
            AlignedPoll::Elements(v) => out.extend(v),
            other => panic!("unexpected {:?}", other),
        }
    }
    let ts: Vec<Option<i64>> = out.iter().map(|e| match e { Element::Record(r) => Some(r.timestamp), _ => None }).collect();
    assert_eq!(out.len(), 5);
    assert!(matches!(out[3], Element::Barrier(5)));
    let mut before: Vec<i64> = ts[..3].iter().map(|t| t.unwrap()).collect();
    let pos3 = before.iter().position(|t| *t == 3).unwrap();
    let pos4 = before.iter().position(|t| *t == 4).unwrap();
    assert!(pos3 < pos4);
    before.sort();
    assert_eq!(before, vec![1, 3, 4]);
    assert_eq!(ts[4], Some(2));
}

#[test]
fn receive_outcomes_classified() {
    use_classify();
}

fn use_classify() {
    assert!(matches!(classify_receive(2, Ok(Element::Barrier(4))), (Trial::Taken, Some((2, Element::Barrier(4))))));
    assert!(matches!(classify_receive(2, Err(TryRecvError::Empty)), (Trial::Empty, None)));
    assert!(matches!(classify_receive(2, Err(TryRecvError::Disconnected)), (Trial::Disconnected, None)));
}

#[test]
fn empty_fan_in_is_finished() {
    let mut it = MultiChannelIterator::new(vec![]);
    assert!(matches!(it.next(&CoordinatorStatus::new()), InputPoll::Finished));
}

#[test]
fn all_disconnected_inputs_finish_after_draining() {
    let (mut a, ra) = named_channel::<Element>("a", vec![], 0);
    let (b, rb) = named_channel::<Element>("b", vec![], 0);
    a.send(Element::Watermark(1)).unwrap();
    drop(a);
    drop(b);
    let status = CoordinatorStatus::new();
    let mut it = MultiChannelIterator::new(vec![ra, rb]);
    assert!(matches!(it.next(&status), InputPoll::Element(0, Element::Watermark(1))));
    assert!(matches!(it.next(&status), InputPoll::Finished));
}
