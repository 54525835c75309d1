//! Change events: what arrived and what departed between two observations.

use vstd::prelude::*;
use vstd::string::StringExecFns;
use std::time::SystemTime;

verus! {

/// `std::time::SystemTime`: a point in time as the system clock gives it.
/// Nothing is claimed of what it holds: it is carried from the clock to the
/// event.
#[verifier::external_type_specification]
#[verifier::external_body]
pub struct ExSystemTime(SystemTime);

/// `SystemTime::clone`: the type is `Copy`, and the clone is the same point
/// in time. This is believed, not proved.
pub assume_specification[ <SystemTime as Clone>::clone ](t: &SystemTime) -> (r: SystemTime)
    ensures
        r == *t,
;

/// What a change event says, with the name as a sequence of characters.
pub enum Change {
    Added(Seq<char>),
    Removed(Seq<char>),
}

/// A resource arrived or departed.
#[derive(Debug, Clone, PartialEq)]
pub enum PortEvent {
    /// The name was not known before and is now.
    Added(String),
    /// The name was known before and is no longer.
    Removed(String),
}

impl View for PortEvent {
    type V = Change;

    open spec fn view(&self) -> Change {
        match self {
            PortEvent::Added(name) => Change::Added(name@),
            PortEvent::Removed(name) => Change::Removed(name@),
        }
    }
}

/// The line that reports a change.
pub open spec fn line_of(change: Change) -> Seq<char> {
    match change {
        Change::Added(name) => "New port: "@ + name,
        Change::Removed(name) => "Removed port: "@ + name,
    }
}

impl PortEvent {
    /// The line that reports this event.
    pub fn log_line(&self) -> (line: String)
        ensures
            line@ == line_of(self@),
    {
        match self {
            PortEvent::Added(name) => String::from_str("New port: ").concat(name.as_str()),
            PortEvent::Removed(name) => String::from_str("Removed port: ").concat(name.as_str()),
        }
    }
}

/// A change event with the time at which it was noticed.
#[derive(Debug, Clone, PartialEq)]
pub enum SerialEvent {
    /// A device was connected and is now available.
    DeviceArrived { port_name: String, timestamp: SystemTime },
    /// A device was disconnected and is no longer available.
    DeviceDeparted { port_name: String, timestamp: SystemTime },
}

impl SerialEvent {
    /// What the event says, without its time.
    pub open spec fn change(&self) -> Change {
        match self {
            SerialEvent::DeviceArrived { port_name, .. } => Change::Added(port_name@),
            SerialEvent::DeviceDeparted { port_name, .. } => Change::Removed(port_name@),
        }
    }

    /// The time at which the change was noticed.
    pub open spec fn noticed_at(&self) -> SystemTime {
        match self {
            SerialEvent::DeviceArrived { timestamp, .. } => *timestamp,
            SerialEvent::DeviceDeparted { timestamp, .. } => *timestamp,
        }
    }

    /// The line that reports this event.
    pub fn log_line(&self) -> (line: String)
        ensures
            line@ == line_of(self.change()),
    {
        match self {
            SerialEvent::DeviceArrived { port_name, .. } => String::from_str("New port: ").concat(
                port_name.as_str(),
            ),
            SerialEvent::DeviceDeparted { port_name, .. } => String::from_str(
                "Removed port: ",
            ).concat(port_name.as_str()),
        }
    }

    /// The event `event`, noticed at `timestamp`.
    pub fn stamped(event: PortEvent, timestamp: SystemTime) -> (r: SerialEvent)
        ensures
            r.change() == event@,
            r.noticed_at() == timestamp,
            event is Added <==> r is DeviceArrived,
    {
        match event {
            PortEvent::Added(port_name) => SerialEvent::DeviceArrived { port_name, timestamp },
            PortEvent::Removed(port_name) => SerialEvent::DeviceDeparted { port_name, timestamp },
        }
    }
}

/// The changes that a sequence of events holds, one for one.
pub open spec fn changes_of(events: Seq<PortEvent>) -> Seq<Change> {
    Seq::new(events.len(), |i: int| events[i]@)
}

} // verus!
