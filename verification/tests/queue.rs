use ioq::sys::Outcome;
use ioq::{Custom, Event, Queue};

const NUMBER: u32 = 1234;

const PORT: Outcome = Outcome { value: 0x40, code: 0 };

const POSTED: Outcome = Outcome { value: 1, code: 0 };

struct TestEvent {
    n: u32,
}

impl Custom for TestEvent {
    fn execute(self: Box<Self>) {
        assert_eq!(NUMBER, self.n);
    }
}

#[test]
fn queue_create_queue() {
    Queue::new(PORT).unwrap();
}

#[test]
fn queue_custom_event() {
    let mut queue = Queue::new(PORT).unwrap();

    let event = Box::new(TestEvent { n: NUMBER });
    queue.enqueue(event, POSTED).unwrap();

    match queue.dequeue().unwrap() {
        Event::Custom => {}
        _ => panic!("Expected Event::Custom"),
    }
}

#[test]
fn mod_create_queue() {
    assert!(Queue::new(PORT).is_ok());
}

#[test]
fn mod_custom_event() {
    let queue = Queue::new(PORT);
    assert!(queue.is_ok());
    let mut queue = queue.unwrap();

    let event = Box::new(TestEvent { n: NUMBER });
    assert!(queue.enqueue(event, POSTED).is_ok());

    let event = queue.dequeue();
    assert!(event.is_ok());
    if let Event::Custom = event.unwrap() {
    } else {
        panic!();
    }
}
