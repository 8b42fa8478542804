use drawing_canvas::input::{InputQueue, PointerEvent, PointerEventSource, PointerEventType};

fn event(kind: PointerEventType, x: i32, stamp: i64) -> PointerEvent {
    PointerEvent {
        position: [x, -x],
        pressure: 65536,
        tilt: None,
        azimuth: None,
        twist: None,
        timestamp: stamp,
        event_type: kind,
        source: PointerEventSource::Mouse,
    }
}

#[test]
fn new_queue_is_empty_and_idle() {
    let queue = InputQueue::new();
    assert!(!queue.has_events());
    assert!(!queue.is_drawing());
    assert_eq!(queue.last_position(), None);
    let queue = InputQueue::default();
    assert!(!queue.has_events());
    assert!(!queue.is_drawing());
}

#[test]
fn move_outside_a_stroke_is_dropped() {
    let mut queue = InputQueue::new();
    queue.push_event(event(PointerEventType::Move, 3, 1));
    assert!(!queue.has_events());
    assert_eq!(queue.last_position(), None);
    assert!(queue.drain_events().is_empty());
}

#[test]
fn press_starts_and_release_ends_a_stroke() {
    let mut queue = InputQueue::new();
    queue.push_event(event(PointerEventType::Down, 1, 1));
    assert!(queue.is_drawing());
    assert!(queue.has_events());
    assert_eq!(queue.last_position(), Some([1, -1]));
    queue.push_event(event(PointerEventType::Move, 2, 2));
    assert_eq!(queue.last_position(), Some([2, -2]));
    queue.push_event(event(PointerEventType::Up, 3, 3));
    assert!(!queue.is_drawing());
    assert_eq!(queue.last_position(), Some([3, -3]));
    queue.push_event(event(PointerEventType::Move, 4, 4));
    assert_eq!(queue.last_position(), Some([3, -3]));
    let drained = queue.drain_events();
    let xs: Vec<i32> = drained.iter().map(|e| e.position[0]).collect();
    assert_eq!(xs, vec![1, 2, 3]);
}

#[test]
fn release_without_a_press_is_buffered() {
    let mut queue = InputQueue::new();
    queue.push_event(event(PointerEventType::Up, 9, 1));
    assert!(queue.has_events());
    assert!(!queue.is_drawing());
    let drained = queue.drain_events();
    assert_eq!(drained.len(), 1);
    assert_eq!(drained[0].event_type, PointerEventType::Up);
}

#[test]
fn drain_returns_arrival_order_and_clears() {
    let mut queue = InputQueue::new();
    queue.push_event(event(PointerEventType::Down, 0, 50));
    for i in 1..100 {
        // time stamps are not looked at: these run backwards
        queue.push_event(event(PointerEventType::Move, i, 50 - i as i64));
    }
    let drained = queue.drain_events();
    assert_eq!(drained.len(), 100);
    for (i, e) in drained.iter().enumerate() {
        assert_eq!(e.position[0], i as i32);
    }
    assert!(!queue.has_events());
    assert!(queue.is_drawing());
    assert_eq!(queue.last_position(), Some([99, -99]));
    assert!(queue.drain_events().is_empty());
}

#[test]
fn duplicates_are_kept() {
    let mut queue = InputQueue::new();
    queue.push_event(event(PointerEventType::Down, 1, 1));
    queue.push_event(event(PointerEventType::Down, 1, 1));
    queue.push_event(event(PointerEventType::Move, 1, 1));
    queue.push_event(event(PointerEventType::Move, 1, 1));
    assert_eq!(queue.drain_events().len(), 4);
}
