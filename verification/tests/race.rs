use al_structures::enums::Which;
use al_structures::race::race_poll;
use al_structures::transport::transport::Poll;
use std::cell::Cell;

#[test]
fn race_first_ready_wins() {
    let r: Poll<Which<i32, &str>> = race_poll(|| Poll::Ready(42), || Poll::Ready("unreached"));
    assert_eq!(r, Poll::Ready(Which::A(42)));
}

#[test]
fn race_second_wins_when_first_pending() {
    let r: Poll<Which<u8, &str>> = race_poll(|| Poll::Pending, || Poll::Ready("winner"));
    assert_eq!(r, Poll::Ready(Which::B("winner")));
}

#[test]
fn race_both_pending() {
    let r: Poll<Which<u8, &str>> = race_poll(|| Poll::Pending, || Poll::Pending);
    assert_eq!(r, Poll::Pending);
}

#[test]
fn race_second_not_polled_when_first_ready() {
    let polled = Cell::new(false);
    let r: Poll<Which<u8, u8>> = race_poll(|| Poll::Ready(1), || {
        polled.set(true);
        Poll::Ready(2)
    });
    assert_eq!(r, Poll::Ready(Which::A(1)));
    assert!(!polled.get());
}

#[test]
fn a_wins() {
    let r: Poll<Which<i32, &str>> = race_poll(|| Poll::Ready(42), || Poll::Ready("unreached"));
    assert!(matches!(r, Poll::Ready(Which::A(42))));
}

#[test]
fn b_wins() {
    let r: Poll<Which<u8, &str>> = race_poll(|| Poll::Pending, || Poll::Ready("winner"));
    assert!(matches!(r, Poll::Ready(Which::B("winner"))));
}

#[test]
fn both_pending() {
    let r: Poll<Which<u8, &str>> = race_poll(|| Poll::Pending, || Poll::Pending);
    assert!(matches!(r, Poll::Pending));
}
