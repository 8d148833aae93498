use al_structures::collections::storage::utils::{HandleError, StorageError};
use al_structures::transport::arc_utils::{consume_or_clone, make_mut_or_clone};
use al_structures::transport::dispatcher::{keyed_handlers, DispatcherError, RouteKeys};
use al_structures::enums::ControlFlow;
use al_structures::transport::splice::{splice_flow, SpliceHandle};
use al_structures::transport::task::noop_context;
use al_structures::transport::transport::Poll;
use al_structures::transport::transports::{recv_step, BoundaryQueueError};
use al_structures::transport::transports::state_line;
use std::collections::VecDeque;
use std::sync::Arc;

#[test]
fn consume_or_clone_takes_or_copies() {
    let only = Arc::new(vec![1, 2, 3]);
    assert_eq!(consume_or_clone(only), vec![1, 2, 3]);

    let shared = Arc::new(String::from("x"));
    let other = shared.clone();
    assert_eq!(consume_or_clone(shared), "x");
    assert_eq!(*other, "x");
}

#[test]
fn make_mut_or_clone_detaches_shared_values() {
    let mut a = Arc::new(5);
    let b = a.clone();
    *make_mut_or_clone(&mut a) += 1;
    assert_eq!(*a, 6);
    assert_eq!(*b, 5);

    let mut c = Arc::new(1);
    *make_mut_or_clone(&mut c) = 9;
    assert_eq!(*c, 9);
}

#[test]
fn splice_handle_stop_is_shared_and_observable() {
    let handle = SpliceHandle::new();
    let clone = handle.clone();
    let mut stopped = handle.stopped();
    let mut cx = noop_context();
    assert!(!handle.is_stopped());
    assert!(matches!(stopped.poll(&mut cx), Poll::Pending));
    clone.stop();
    assert!(handle.is_stopped());
    assert!(matches!(stopped.poll(&mut cx), Poll::Ready(())));
    assert!(SpliceHandle::default().is_stopped() == false);
}

#[test]
fn route_keys_list_their_keys_in_order() {
    assert_eq!(RouteKeys::<u8>::NoKeys.into_vec(), Vec::<u8>::new());
    assert_eq!(RouteKeys::One(3u8).into_vec(), vec![3]);
    assert_eq!(RouteKeys::Two([4u8, 5]).into_vec(), vec![4, 5]);
    assert_eq!(RouteKeys::Many(vec![6u8, 7, 8]).into_vec(), vec![6, 7, 8]);
    assert_eq!(RouteKeys::<u8>::default(), RouteKeys::NoKeys);
}

#[test]
fn dispatcher_and_queue_error_messages() {
    assert_eq!(
        DispatcherError::from(StorageError::OutOfBounds(2, 1)).message(),
        "Index '2' is out of bounds for length '1'"
    );
    assert_eq!(
        DispatcherError::from(HandleError::LockPoisoned("l".to_string())),
        DispatcherError::HandleError(HandleError::LockPoisoned("l".to_string()))
    );
    assert_eq!(DispatcherError::RoutingError("no route".to_string()).message(), "no route");
    assert_eq!(
        BoundaryQueueError::PoisonedMutex.message(),
        "BoundaryQueue mutex was poisoned by a panicked thread"
    );
    assert_eq!(BoundaryQueueError::WaitFailed.message(), "condition variable wait failed");
}

#[test]
fn splice_flow_decisions() {
    assert_eq!(splice_flow(true, Ok(()), None), ControlFlow::Break);
    assert_eq!(splice_flow(false, Ok(()), None), ControlFlow::Continue);
    assert_eq!(splice_flow(false, Err(BoundaryQueueError::WaitFailed), Some(ControlFlow::Continue)), ControlFlow::Continue);
    assert_eq!(splice_flow(false, Err(BoundaryQueueError::PoisonedMutex), Some(ControlFlow::Break)), ControlFlow::Break);
}

#[test]
fn recv_step_decisions() {
    let mut q: VecDeque<u8> = VecDeque::from(vec![4, 5]);
    assert_eq!(recv_step(true, &mut q), Some(None));
    assert_eq!(q.len(), 2);
    assert_eq!(recv_step(false, &mut q), Some(Some(4)));
    assert_eq!(recv_step(false, &mut q), Some(Some(5)));
    assert_eq!(recv_step(false, &mut q), None);
}

#[test]
fn stateful_sink_status_line() {
    assert_eq!(state_line("7"), "Stateful Sink { state: 7 }");
}

#[test]
fn keyed_handlers_follow_the_routing_keys() {
    let mut map: std::collections::HashMap<u64, Vec<u64>> = std::collections::HashMap::new();
    map.insert(1, vec![10, 11]);
    map.insert(2, vec![20]);
    let fired = keyed_handlers(&map, &vec![2, 3, 1]).unwrap();
    assert_eq!(fired, vec![20, 10, 11]);
    assert_eq!(keyed_handlers(&map, &vec![]).unwrap(), Vec::<u64>::new());
    assert_eq!(keyed_handlers(&map, &vec![1, 1]).unwrap(), vec![10, 11, 10, 11]);
}
