use al_structures::transport::driver::{Driver, DriverError};
use al_structures::transport::task::noop_waker;
use al_structures::transport::transport::{
    Action, Backpressure, Poll, Transport, TransportID, TransportIDError, Vacancy,
};
use al_structures::transport::transports::{Filter, MapTransport, Queue, Sink};
use std::task::Context;

struct CountingProducer(u64);

impl CountingProducer {
    fn new() -> Self {
        CountingProducer(0)
    }
}

impl Transport<u64> for CountingProducer {
    fn handle_incoming(&mut self, _: u64) -> Result<(), Backpressure> {
        Ok(())
    }
    fn poll_action(&mut self, _: &mut Context<'_>) -> Poll<Action<u64>> {
        let val = self.0;
        self.0 = self.0.saturating_add(1);
        Poll::Ready(Action::Data(val))
    }
    fn has_space(&self) -> Vacancy {
        Vacancy::Unbounded
    }
    fn status(&self) -> String {
        format!("Next Value: {}", self.0)
    }
}

impl From<CountingProducer> for Box<dyn Transport<u64>> {
    fn from(value: CountingProducer) -> Self {
        Box::new(value)
    }
}

struct CountingConsumer(u64);

impl CountingConsumer {
    fn new() -> Self {
        CountingConsumer(0)
    }
}

impl Transport<u64> for CountingConsumer {
    fn handle_incoming(&mut self, _: u64) -> Result<(), Backpressure> {
        self.0 += 1;
        Ok(())
    }
    fn poll_action(&mut self, _: &mut Context<'_>) -> Poll<Action<u64>> {
        Poll::Pending
    }
    fn has_space(&self) -> Vacancy {
        Vacancy::Unbounded
    }
    fn status(&self) -> String {
        format!("Items received: {}", self.0)
    }
}

impl From<CountingConsumer> for Box<dyn Transport<u64>> {
    fn from(value: CountingConsumer) -> Self {
        Box::new(value)
    }
}

fn describe(driver: &Driver<u64>) -> String {
    driver.statuses().join("\n")
}

#[test]
fn connect_self() {
    let mut driver = Driver::new();
    let id = driver.add_transport(CountingProducer::new());

    assert!(matches!(driver.connect(id, id), Err(DriverError::SelfConnection)));
}

#[test]
fn invalid_sender() {
    let mut driver = Driver::new();
    let valid_id = driver.add_transport(CountingProducer::new());
    let invalid_id = TransportID { index: 1, generation: 0 };

    assert!(matches!(
        driver.connect(invalid_id, valid_id),
        Err(DriverError::InvalidSender(TransportIDError::InvalidIndex))
    ));
}

#[test]
fn invalid_receiver() {
    let mut driver = Driver::new();
    let valid_id = driver.add_transport(CountingProducer::new());
    let invalid_id = TransportID { index: 1, generation: 0 };

    assert!(matches!(
        driver.connect(valid_id, invalid_id),
        Err(DriverError::InvalidReceiver(TransportIDError::InvalidIndex))
    ));
}

#[test]
fn deliver_to_invalid_id() {
    let mut driver: Driver<u64> = Driver::new();
    let invalid_id = TransportID { index: 1, generation: 0 };

    assert!(matches!(
        driver.deliver_to(invalid_id, 10),
        Err(DriverError::InvalidReceiver(TransportIDError::InvalidIndex))
    ));
}

#[test]
fn disconnect() {
    let mut driver = Driver::new();
    let producer = driver.add_transport(CountingProducer::new());
    let consumer = driver.add_transport(CountingConsumer::new());
    driver.connect(producer, consumer).unwrap();
    assert!(describe(&driver).contains("0"));

    let waker = noop_waker();
    let mut cx = std::task::Context::from_waker(waker);
    driver.poll(&mut cx);
    assert!(describe(&driver).contains("1"));

    assert!(driver.disconnect(producer, consumer).is_ok());
    driver.poll(&mut cx);
    assert!(describe(&driver).contains("1"))
}

#[test]
fn disconnect_nonexistent() {
    let mut driver = Driver::new();
    let producer = driver.add_transport(CountingProducer::new());
    let consumer = driver.add_transport(CountingConsumer::new());

    assert!(driver.disconnect(producer, consumer).is_ok());
}

#[test]
fn disconnect_invalid_sender() {
    let mut driver = Driver::new();
    let valid_id = driver.add_transport(CountingConsumer::new());
    let invalid_id = TransportID { index: 1, generation: 0 };

    assert!(matches!(
        driver.disconnect(invalid_id, valid_id),
        Err(DriverError::InvalidSender(TransportIDError::InvalidIndex))
    ));
}

#[test]
fn deliver_to() {
    let mut driver = Driver::new();
    let consumer = driver.add_transport(CountingConsumer::new());

    assert!(driver.deliver_to(consumer, 10).is_ok());
}

#[test]
fn multiple_connections() {
    let mut driver = Driver::new();
    let producer = driver.add_transport(CountingProducer::new());
    let consumer1 = driver.add_transport(CountingConsumer::new());
    let consumer2 = driver.add_transport(CountingConsumer::new());

    driver.connect(producer, consumer1).unwrap();
    driver.connect(producer, consumer2).unwrap();

    let waker = noop_waker();
    let mut cx = std::task::Context::from_waker(waker);
    driver.poll(&mut cx);

    assert_eq!(&describe(&driver), "Next Value: 1\nItems received: 1\nItems received: 1")
}

#[test]
fn connect_twice_then_disconnect_one_target() {
    let mut driver = Driver::new();
    let producer = driver.add_transport(CountingProducer::new());
    let c1 = driver.add_transport(CountingConsumer::new());
    let c2 = driver.add_transport(CountingConsumer::new());
    driver.connect(producer, c1).unwrap();
    driver.connect(producer, c1).unwrap();
    driver.connect(producer, c2).unwrap();
    driver.disconnect(producer, c1).unwrap();

    let mut cx = std::task::Context::from_waker(noop_waker());
    driver.poll(&mut cx);
    assert_eq!(&describe(&driver), "Next Value: 1\nItems received: 0\nItems received: 1");
}

#[test]
fn pipeline_through_map_into_queue() {
    let mut driver: Driver<u64> = Driver::new();
    let producer = driver.add_transport(CountingProducer::new());
    let square = driver.add_transport(Box::new(MapTransport::new(|x: u64| x * x)) as Box<dyn Transport<u64>>);
    let sink = driver.add_transport(Box::new(Sink::new(|_: u64| {})) as Box<dyn Transport<u64>>);
    driver.connect(producer, square).unwrap();
    driver.connect(square, sink).unwrap();
    let mut cx = std::task::Context::from_waker(noop_waker());
    driver.poll(&mut cx);
    assert_eq!(describe(&driver), "Next Value: 1\nMap Buffer Length: 0\nSink");
}

#[test]
fn vacancy_is_available() {
    assert!(Vacancy::Unbounded.is_available());
    assert!(Vacancy::Vacancy(1).is_available());
    assert!(!Vacancy::Vacancy(0).is_available());
    assert!(!Vacancy::Backpressure(Backpressure::BufferFull).is_available());
}

#[test]
fn new_queue_is_empty() {
    let mut queue = Queue::<i32>::new();
    let waker = noop_waker().clone();
    let mut cx = std::task::Context::from_waker(&waker);

    let result = queue.poll_action(&mut cx);
    if let Poll::Pending = result {
    } else {
        panic!("Expected Pending for empty queue");
    }
}

#[test]
fn handle_incoming_then_poll() {
    let mut queue = Queue::new();
    let _ = queue.handle_incoming(42);

    let waker = noop_waker().clone();
    let mut cx = std::task::Context::from_waker(&waker);

    let result = queue.poll_action(&mut cx);
    if let Poll::Ready(Action::Data(data)) = result {
        assert_eq!(data, 42);
    } else {
        panic!("Expected Ready with data");
    }
}

#[test]
fn multiple_items_fifo_order() {
    let mut queue = Queue::new();
    let _ = queue.handle_incoming(1);
    let _ = queue.handle_incoming(2);
    let _ = queue.handle_incoming(3);

    let waker = noop_waker().clone();
    let mut cx = std::task::Context::from_waker(&waker);

    if let Poll::Ready(Action::Data(data)) = queue.poll_action(&mut cx) {
        assert_eq!(data, 1);
    }
    if let Poll::Ready(Action::Data(data)) = queue.poll_action(&mut cx) {
        assert_eq!(data, 2);
    }
    if let Poll::Ready(Action::Data(data)) = queue.poll_action(&mut cx) {
        assert_eq!(data, 3);
    }
}

#[test]
fn poll_empty_after_drain() {
    let mut queue = Queue::new();
    let _ = queue.handle_incoming(1);
    let _ = queue.handle_incoming(2);

    let waker = noop_waker().clone();
    let mut cx = std::task::Context::from_waker(&waker);

    let _ = queue.poll_action(&mut cx);
    let _ = queue.poll_action(&mut cx);

    let result = queue.poll_action(&mut cx);
    if let Poll::Pending = result {
    } else {
        panic!("Expected Pending after draining");
    }
}

#[test]
fn status_reports_queue_length() {
    let mut queue = Queue::new();
    assert_eq!(queue.status(), "Queue Length: 0");

    let _ = queue.handle_incoming(1);
    assert_eq!(queue.status(), "Queue Length: 1");

    let _ = queue.handle_incoming(2);
    let _ = queue.handle_incoming(3);
    assert_eq!(queue.status(), "Queue Length: 3");

    let waker = noop_waker().clone();
    let mut cx = std::task::Context::from_waker(&waker);
    let _ = queue.poll_action(&mut cx);

    assert_eq!(queue.status(), "Queue Length: 2");
}

#[test]
fn waker_is_stored_when_empty() {
    let mut queue = Queue::<i32>::new();

    let waker = noop_waker().clone();
    let mut cx = std::task::Context::from_waker(&waker);

    let _ = queue.poll_action(&mut cx);

    let _ = queue.handle_incoming(42);

    let result = queue.poll_action(&mut cx);
    if let Poll::Ready(Action::Data(data)) = result {
        assert_eq!(data, 42);
    } else {
        panic!("Expected Ready after waking");
    }
}

#[test]
fn filter_passes_matching_items() {
    let mut filter = Filter::new(|x: &i32| x > &5);

    let _ = filter.handle_incoming(3);
    let _ = filter.handle_incoming(7);
    let _ = filter.handle_incoming(2);
    let _ = filter.handle_incoming(10);

    let waker = noop_waker().clone();
    let mut cx = std::task::Context::from_waker(&waker);

    if let Poll::Ready(Action::Data(data)) = filter.poll_action(&mut cx) {
        assert_eq!(data, 7);
    } else {
        panic!("Expected data 7");
    }
    if let Poll::Ready(Action::Data(data)) = filter.poll_action(&mut cx) {
        assert_eq!(data, 10);
    } else {
        panic!("Expected data 10");
    }
}

#[test]
fn filter_rejects_non_matching_items() {
    let mut filter = Filter::new(|x: &i32| x % 2 == 0);

    let _ = filter.handle_incoming(1);
    let _ = filter.handle_incoming(2);
    let _ = filter.handle_incoming(3);
    let _ = filter.handle_incoming(4);

    let waker = noop_waker().clone();
    let mut cx = std::task::Context::from_waker(&waker);

    if let Poll::Ready(Action::Data(data)) = filter.poll_action(&mut cx) {
        assert_eq!(data, 2);
    } else {
        panic!("Expected data 2");
    }
    if let Poll::Ready(Action::Data(data)) = filter.poll_action(&mut cx) {
        assert_eq!(data, 4);
    } else {
        panic!("Expected data 4");
    }
}

#[test]
fn filter_all_rejected_returns_pending() {
    let mut filter = Filter::new(|x: &i32| x > &100);

    let _ = filter.handle_incoming(1);
    let _ = filter.handle_incoming(2);
    let _ = filter.handle_incoming(3);

    let waker = noop_waker().clone();
    let mut cx = std::task::Context::from_waker(&waker);

    let result = filter.poll_action(&mut cx);
    if let Poll::Pending = result {
    } else {
        panic!("Expected Pending when all items filtered");
    }
}

#[test]
fn filter_status_reports_buffer_length() {
    let mut filter = Filter::new(|x: &i32| x > &5);

    let _ = filter.handle_incoming(1);
    let _ = filter.handle_incoming(10);
    let _ = filter.handle_incoming(20);

    assert_eq!(filter.status(), "Filter Buffer Length: 2");
}

#[test]
fn filter_empty_then_pending() {
    let mut filter = Filter::new(|_: &i32| true);

    let _ = filter.handle_incoming(42);

    let waker = noop_waker().clone();
    let mut cx = std::task::Context::from_waker(&waker);

    let _ = filter.poll_action(&mut cx);

    let result = filter.poll_action(&mut cx);
    if let Poll::Pending = result {
    } else {
        panic!("Expected Pending after consuming item");
    }
}

#[test]
fn filter_with_string_predicate() {
    let mut filter = Filter::new(|s: &String| s.len() > 3);

    let _ = filter.handle_incoming("hi".to_string());
    let _ = filter.handle_incoming("hello".to_string());
    let _ = filter.handle_incoming("ok".to_string());
    let _ = filter.handle_incoming("rust".to_string());

    let waker = noop_waker().clone();
    let mut cx = std::task::Context::from_waker(&waker);

    if let Poll::Ready(Action::Data(data)) = filter.poll_action(&mut cx) {
        assert_eq!(data, "hello");
    } else {
        panic!("Expected 'hello'");
    }
    if let Poll::Ready(Action::Data(data)) = filter.poll_action(&mut cx) {
        assert_eq!(data, "rust");
    } else {
        panic!("Expected 'rust'");
    }
}

#[test]
fn map_transforms_data() {
    let mut map = MapTransport::new(|x: i32| x * 2);
    let _ = map.handle_incoming(5);
    let _ = map.handle_incoming(10);
    let _ = map.handle_incoming(15);
    let waker = noop_waker().clone();
    let mut cx = std::task::Context::from_waker(&waker);
    if let Poll::Ready(Action::Data(data)) = map.poll_action(&mut cx) {
        assert_eq!(data, 10);
    } else {
        panic!("Expected transformed data");
    }
    if let Poll::Ready(Action::Data(data)) = map.poll_action(&mut cx) {
        assert_eq!(data, 20);
    } else {
        panic!("Expected transformed data");
    }
    if let Poll::Ready(Action::Data(data)) = map.poll_action(&mut cx) {
        assert_eq!(data, 30);
    } else {
        panic!("Expected transformed data");
    }
}

#[test]
fn map_with_string_transformation() {
    let mut map = MapTransport::new(|s: String| s.to_uppercase());
    let _ = map.handle_incoming("hello".to_string());
    let _ = map.handle_incoming("world".to_string());
    let waker = noop_waker().clone();
    let mut cx = std::task::Context::from_waker(&waker);
    if let Poll::Ready(Action::Data(data)) = map.poll_action(&mut cx) {
        assert_eq!(data, "HELLO");
    } else {
        panic!("Expected transformed string");
    }
    if let Poll::Ready(Action::Data(data)) = map.poll_action(&mut cx) {
        assert_eq!(data, "WORLD");
    } else {
        panic!("Expected transformed string");
    }
}

#[test]
fn map_preserves_order() {
    let mut map = MapTransport::new(|x: i32| x + 1);
    for i in 1..=5 {
        let _ = map.handle_incoming(i);
    }
    let waker = noop_waker().clone();
    let mut cx = std::task::Context::from_waker(&waker);
    for i in 1..=5 {
        if let Poll::Ready(Action::Data(data)) = map.poll_action(&mut cx) {
            assert_eq!(data, i + 1, "Items should be in order");
        } else {
            panic!("Expected data");
        }
    }
}

#[test]
fn map_empty_returns_pending() {
    let mut map = MapTransport::new(|x: i32| x * 2);
    let waker = noop_waker().clone();
    let mut cx = std::task::Context::from_waker(&waker);
    let result = map.poll_action(&mut cx);
    if let Poll::Pending = result {
    } else {
        panic!("Expected Pending on empty map");
    }
}

#[test]
fn map_status_reports_buffer_length() {
    let mut map = MapTransport::new(|x: i32| x * 2);
    assert_eq!(map.status(), "Map Buffer Length: 0");
    let _ = map.handle_incoming(1);
    let _ = map.handle_incoming(2);
    let _ = map.handle_incoming(3);
    assert_eq!(map.status(), "Map Buffer Length: 3");
    let waker = noop_waker().clone();
    let mut cx = std::task::Context::from_waker(&waker);
    let _ = map.poll_action(&mut cx);
    assert_eq!(map.status(), "Map Buffer Length: 2");
}

#[derive(Debug, Clone, PartialEq)]
struct Point(i32, i32);

#[test]
fn map_complex_transformation() {
    let mut map = MapTransport::new(|p: Point| Point(p.0 * 2, p.1 * 2));
    let _ = map.handle_incoming(Point(1, 2));
    let _ = map.handle_incoming(Point(3, 4));
    let waker = noop_waker().clone();
    let mut cx = std::task::Context::from_waker(&waker);
    if let Poll::Ready(Action::Data(data)) = map.poll_action(&mut cx) {
        assert_eq!(data, Point(2, 4));
    } else {
        panic!("Expected transformed Point");
    }
    if let Poll::Ready(Action::Data(data)) = map.poll_action(&mut cx) {
        assert_eq!(data, Point(6, 8));
    } else {
        panic!("Expected transformed Point");
    }
}

#[test]
fn driver_stays_consistent() {
    let mut driver = Driver::new();
    assert!(driver.is_consistent());
    let producer = driver.add_transport(CountingProducer::new());
    let c1 = driver.add_transport(CountingConsumer::new());
    let c2 = driver.add_transport(CountingConsumer::new());
    driver.connect(producer, c1).unwrap();
    driver.connect(producer, c2).unwrap();
    assert!(driver.is_consistent());
    let mut cx = std::task::Context::from_waker(noop_waker());
    driver.poll(&mut cx);
    driver.disconnect(producer, c1).unwrap();
    assert!(driver.is_consistent());
}
