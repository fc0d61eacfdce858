//! Events and the emitter that collects them for the sessions.

use vstd::prelude::*;
use crate::json::{JsonValue, JsonView};

verus! {

/// Something that happened in the server and that sessions or the
/// advertiser may have to hear of.
#[derive(Debug)]
pub enum Event {
    /// A controller with the given pairing id was paired.
    ControllerPaired { id: String },
    /// The pairing of the controller with the given pairing id was removed.
    ControllerUnpaired { id: String },
    /// A characteristic took a value that differs from the one before.
    CharacteristicValueChanged { aid: u64, iid: u64, value: JsonValue },
}

/// The mathematical model of an [`Event`].
pub enum EventView {
    ControllerPaired { id: Seq<char> },
    ControllerUnpaired { id: Seq<char> },
    CharacteristicValueChanged { aid: u64, iid: u64, value: JsonView },
}

impl View for Event {
    type V = EventView;

    open spec fn view(&self) -> EventView {
        match self {
            Event::ControllerPaired { id } => EventView::ControllerPaired { id: id@ },
            Event::ControllerUnpaired { id } => EventView::ControllerUnpaired { id: id@ },
            Event::CharacteristicValueChanged { aid, iid, value } => {
                EventView::CharacteristicValueChanged { aid: *aid, iid: *iid, value: value@ }
            },
        }
    }
}

/// The models of a list of events.
pub open spec fn events_view(events: Seq<Event>) -> Seq<EventView> {
    Seq::new(events.len(), |i: int| events[i]@)
}

/// Collects the events that are emitted until the transport takes them and
/// hands them to the sessions.
#[derive(Debug)]
pub struct EventEmitter {
    pending: Vec<Event>,
}

impl View for EventEmitter {
    type V = Seq<EventView>;

    closed spec fn view(&self) -> Seq<EventView> {
        events_view(self.pending@)
    }
}

impl EventEmitter {
    /// An emitter with no pending event.
    pub fn new() -> (emitter: EventEmitter)
        ensures
            emitter@ == Seq::<EventView>::empty(),
    {
        let emitter = EventEmitter { pending: Vec::new() };
        assert(emitter@ =~= Seq::<EventView>::empty());
        emitter
    }

    /// Emits an event: it is pending after those emitted before.
    pub fn emit(&mut self, event: Event)
        ensures
            final(self)@ == old(self)@.push(event@),
    {
        self.pending.push(event);
        assert(self@ =~= old(self)@.push(event@));
    }

    /// Takes the pending events, in the order in which they were emitted.
    pub fn take(&mut self) -> (events: Vec<Event>)
        ensures
            events_view(events@) == old(self)@,
            final(self)@ == Seq::<EventView>::empty(),
    {
        let mut events: Vec<Event> = Vec::new();
        std::mem::swap(&mut events, &mut self.pending);
        assert(self@ =~= Seq::<EventView>::empty());
        events
    }
}

} // verus!
