//! The diagnostic side channel: an ordered record of what a read went through.

use vstd::prelude::*;

verus! {

/// One event of the diagnostic trace.
#[derive(Debug, PartialEq, Eq)]
pub enum TraceEvent {
    /// Reading of the named type began.
    StartType(String),
    /// Reading of a type ended; the name is the trace name of the field that
    /// was being read, if any.
    EndType(Option<String>),
    /// A remark, such as the description of a failure.
    Comment(String),
}

/// The mathematical model of a [`TraceEvent`].
pub enum EventView {
    StartType(Seq<char>),
    EndType(Option<Seq<char>>),
    Comment(Seq<char>),
}

impl TraceEvent {
    pub open spec fn view(&self) -> EventView {
        match self {
            TraceEvent::StartType(name) => EventView::StartType(name@),
            TraceEvent::EndType(name) => EventView::EndType(
                match name {
                    Some(n) => Some(n@),
                    None => None,
                },
            ),
            TraceEvent::Comment(text) => EventView::Comment(text@),
        }
    }
}

/// The model of a list of events.
pub open spec fn events_view(events: Seq<TraceEvent>) -> Seq<EventView> {
    Seq::new(events.len(), |i: int| events[i]@)
}

/// An observer of reads. A disabled trace records nothing; an enabled one
/// appends every event it is handed. Neither influences what is read.
pub struct Trace {
    enabled: bool,
    events: Vec<TraceEvent>,
}

impl Trace {
    /// Whether the trace records.
    pub closed spec fn is_enabled(&self) -> bool {
        self.enabled
    }

    /// The events recorded so far, oldest first.
    pub closed spec fn log(&self) -> Seq<EventView> {
        events_view(self.events@)
    }

    /// A trace that records nothing.
    pub fn disabled() -> (t: Trace)
        ensures
            !t.is_enabled(),
            t.log() == Seq::<EventView>::empty(),
    {
        let t = Trace { enabled: false, events: Vec::new() };
        assert(t.log() =~= Seq::<EventView>::empty());
        t
    }

    /// A trace that records every event.
    pub fn enabled() -> (t: Trace)
        ensures
            t.is_enabled(),
            t.log() == Seq::<EventView>::empty(),
    {
        let t = Trace { enabled: true, events: Vec::new() };
        assert(t.log() =~= Seq::<EventView>::empty());
        t
    }

    /// Whether the trace records.
    pub fn records(&self) -> (b: bool)
        ensures
            b == self.is_enabled(),
    {
        self.enabled
    }

    /// Appends the event if the trace is enabled.
    pub fn emit(&mut self, event: TraceEvent)
        ensures
            final(self).is_enabled() == old(self).is_enabled(),
            final(self).log() == logged(old(self).is_enabled(), old(self).log(), event@),
    {
        if self.enabled {
            self.events.push(event);
            assert(self.log() =~= old(self).log().push(event@));
        }
    }

    /// The number of events recorded so far.
    pub fn len(&self) -> (n: usize)
        ensures
            n == self.log().len(),
    {
        self.events.len()
    }

    /// The event at `index`, oldest first, if there is one.
    pub fn event(&self, index: usize) -> (e: Option<&TraceEvent>)
        ensures
            match e {
                Some(event) => index < self.log().len() && event@ == self.log()[index as int],
                None => index >= self.log().len(),
            },
    {
        if index < self.events.len() {
            Some(&self.events[index])
        } else {
            None
        }
    }
}

/// The log after an event was handed to a trace.
pub open spec fn logged(enabled: bool, log: Seq<EventView>, event: EventView) -> Seq<EventView> {
    if enabled {
        log.push(event)
    } else {
        log
    }
}

} // verus!
