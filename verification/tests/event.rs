use ioq::event::EventContext;
use ioq::sys::OVERLAPPED;

#[test]
fn event_context_starts_zeroed_and_can_be_changed() {
    let mut context = EventContext::new();
    assert_eq!(*context.overlapped(), OVERLAPPED::new());
    context.overlapped().Offset = 512;
    assert_eq!(context.overlapped().Offset, 512);
    assert_eq!(context.overlapped().OffsetHigh, 0);
}
