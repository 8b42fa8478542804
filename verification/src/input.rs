//! Pointer input and the per-frame input queue.
//!
//! Pointer samples (mouse, touch or stylus) arrive between frames and are
//! buffered in arrival order. A move is meaningful only while a stroke is
//! active, so the queue drops moves that arrive outside a stroke.
use std::collections::VecDeque;
use vstd::prelude::*;

verus! {

/// A pointer sample (mouse, touch, or stylus). All scalars are 16.16
/// fixed-point numbers.
#[derive(Debug, Clone, Copy)]
pub struct PointerEvent {
    /// Position in canvas space (pixels from top-left).
    pub position: [i32; 2],
    /// Pressure in `[0, 1]`; `1` for sources that report none.
    pub pressure: i32,
    /// Tilt angles (x and y, in degrees), if available.
    pub tilt: Option<[i32; 2]>,
    /// Azimuth angle in radians, if available.
    pub azimuth: Option<i32>,
    /// Barrel rotation in degrees, if available.
    pub twist: Option<i32>,
    /// Time of the sample in microseconds since some reference point.
    pub timestamp: i64,
    /// Phase of the stroke that this sample belongs to.
    pub event_type: PointerEventType,
    /// Device that produced the sample.
    pub source: PointerEventSource,
}

/// Phase of a pointer sample within a stroke.
#[derive(Debug, Clone, Copy, PartialEq, Eq, Structural)]
pub enum PointerEventType {
    /// Pointer pressed (start of stroke).
    Down,
    /// Pointer moved while pressed (stroke continues).
    Move,
    /// Pointer released (end of stroke).
    Up,
}

/// Device that produced a pointer sample.
#[derive(Debug, Clone, Copy, PartialEq, Eq, Structural)]
pub enum PointerEventSource {
    Mouse,
    Touch,
    TabletTool,
    Unknown,
}

/// What an [`InputQueue`] holds.
pub struct InputQueueView {
    /// Buffered samples, oldest first.
    pub events: Seq<PointerEvent>,
    /// Whether a stroke is active.
    pub is_drawing: bool,
    /// Position of the last accepted sample.
    pub last_position: Option<[i32; 2]>,
}

/// A queue that holds nothing and is outside any stroke.
pub open spec fn empty_queue() -> InputQueueView {
    InputQueueView { events: Seq::empty(), is_drawing: false, last_position: None }
}

/// The queue after `event` has been offered to it: a press starts a stroke,
/// a release ends it, and both are always buffered; a move is buffered only
/// while a stroke is active and is dropped otherwise.
pub open spec fn after_push(queue: InputQueueView, event: PointerEvent) -> InputQueueView {
    match event.event_type {
        PointerEventType::Down => InputQueueView {
            events: queue.events.push(event),
            is_drawing: true,
            last_position: Some(event.position),
        },
        PointerEventType::Move => if queue.is_drawing {
            InputQueueView {
                events: queue.events.push(event),
                is_drawing: true,
                last_position: Some(event.position),
            }
        } else {
            queue
        },
        PointerEventType::Up => InputQueueView {
            events: queue.events.push(event),
            is_drawing: false,
            last_position: Some(event.position),
        },
    }
}

/// Queue of pointer samples that coalesces input between frames.
pub struct InputQueue {
    events: VecDeque<PointerEvent>,
    is_drawing: bool,
    last_position: Option<[i32; 2]>,
}

impl View for InputQueue {
    type V = InputQueueView;

    closed spec fn view(&self) -> InputQueueView {
        InputQueueView {
            events: self.events@,
            is_drawing: self.is_drawing,
            last_position: self.last_position,
        }
    }
}

impl InputQueue {
    /// Creates an empty queue outside any stroke.
    pub fn new() -> (queue: Self)
        ensures
            queue@ == empty_queue(),
    {
        Self { events: VecDeque::new(), is_drawing: false, last_position: None }
    }

    /// Offers a sample to the queue.
    pub fn push_event(&mut self, event: PointerEvent)
        ensures
            final(self)@ == after_push(old(self)@, event),
    {
        match event.event_type {
            PointerEventType::Down => {
                self.is_drawing = true;
                self.last_position = Some(event.position);
            },
            PointerEventType::Move => {
                if self.is_drawing {
                    self.last_position = Some(event.position);
                } else {
                    return ;
                }
            },
            PointerEventType::Up => {
                self.is_drawing = false;
                self.last_position = Some(event.position);
            },
        }
        self.events.push_back(event);
    }

    /// Removes and returns all buffered samples in arrival order.
    pub fn drain_events(&mut self) -> (drained: Vec<PointerEvent>)
        ensures
            drained@ == old(self)@.events,
            final(self)@.events == Seq::<PointerEvent>::empty(),
            final(self)@.is_drawing == old(self)@.is_drawing,
            final(self)@.last_position == old(self)@.last_position,
    {
        let mut drained: Vec<PointerEvent> = Vec::new();
        while self.events.len() > 0
            invariant
                drained@ + self.events@ == old(self).events@,
                self.is_drawing == old(self).is_drawing,
                self.last_position == old(self).last_position,
            decreases self.events@.len(),
        {
            let ghost before = self.events@;
            let front = self.events.pop_front();
            match front {
                Some(event) => {
                    assert(before == seq![event] + self.events@);
                    assert(drained@.push(event) + self.events@ == drained@ + before);
                    drained.push(event);
                },
                None => {},
            }
        }
        assert(drained@ == drained@ + self.events@);
        drained
    }

    /// Whether any sample is buffered.
    pub fn has_events(&self) -> (pending: bool)
        ensures
            pending == (self@.events.len() > 0),
    {
        self.events.len() > 0
    }

    /// Whether a stroke is active.
    pub fn is_drawing(&self) -> (drawing: bool)
        ensures
            drawing == self@.is_drawing,
    {
        self.is_drawing
    }

    /// Position of the last accepted sample.
    pub fn last_position(&self) -> (position: Option<[i32; 2]>)
        ensures
            position == self@.last_position,
    {
        self.last_position
    }
}

impl Default for InputQueue {
    fn default() -> (queue: Self)
        ensures
            queue@ == empty_queue(),
    {
        Self::new()
    }
}

} // verus!
