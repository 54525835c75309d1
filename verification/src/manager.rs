//! The managers: an inventory together with the poller that keeps it.

use vstd::prelude::*;
use vstd::string::StringExecFns;
use std::time::SystemTime;
use crate::alias::AliasRule;
use crate::discovery::{after_shutdown, decided, known_after_tick, observed, phase_after,
    published_by_tick, Action, DiscoveryService, Phase};
use crate::events::{changes_of, line_of, Change, PortEvent, SerialEvent};
use crate::inventory::Inventory;
use crate::listing::{ascending, listing_of, names};
use crate::schedule::Schedule;

verus! {

/// `SystemTime::now`: the time that the system clock shows at the call.
/// Nothing is claimed of it: two calls may give any two times.
pub assume_specification[ SystemTime::now ]() -> (t: SystemTime)
;

/// What a sequence of stamped events says, one for one, without the times.
pub open spec fn serial_changes_of(events: Seq<SerialEvent>) -> Seq<Change> {
    Seq::new(events.len(), |i: int| events[i].change())
}

/// Stamps each event with the time at which it is handed on.
pub fn stamp_all(events: Vec<PortEvent>) -> (stamped: Vec<SerialEvent>)
    ensures
        serial_changes_of(stamped@) == changes_of(events@),
{
    let mut stamped: Vec<SerialEvent> = Vec::new();
    let mut i: usize = 0;
    while i < events.len()
        invariant
            i <= events.len(),
            stamped@.len() == i,
            forall|k: int| 0 <= k < i ==> (#[trigger] stamped@[k]).change() == events@[k]@,
        decreases events.len() - i,
    {
        let event = match &events[i] {
            PortEvent::Added(name) => PortEvent::Added(name.clone()),
            PortEvent::Removed(name) => PortEvent::Removed(name.clone()),
        };
        stamped.push(SerialEvent::stamped(event, SystemTime::now()));
        i += 1;
    }
    stamped
}

/// The serial devices of the system: what is attached now, and the poller
/// that keeps that up to date. Its events carry the time at which each
/// change was noticed.
pub struct SerialManager {
    known_ports: Inventory,
    discovery: DiscoveryService,
}

impl View for SerialManager {
    type V = Set<Seq<char>>;

    /// The names of the devices currently believed attached.
    closed spec fn view(&self) -> Set<Seq<char>> {
        self.known_ports@
    }
}

impl SerialManager {
    /// The poller of this manager.
    pub closed spec fn poller(&self) -> DiscoveryService {
        self.discovery
    }

    /// A manager that knows no device yet. Its poller runs on the standard
    /// schedule and with the rule for serial devices, and its first action
    /// is a snapshot.
    pub fn new() -> (r: SerialManager)
        ensures
            r@ == Set::<Seq<char>>::empty(),
            r.poller().phase() == Phase::Running,
            r.poller().naps_left() == 0,
            r.poller().naps_per_tick() == 20,
            r.poller().interval() == 2000,
            r.poller().markers() == Some(("/dev/tty."@, "/dev/cu."@)),
    {
        SerialManager {
            known_ports: Inventory::new(),
            discovery: DiscoveryService::spawn(
                Some(AliasRule::serial_devices()),
                Schedule::standard(),
            ),
        }
    }

    /// The names of the devices currently believed attached, in ascending
    /// order, each once.
    pub fn get_ports(&self) -> (r: Vec<String>)
        ensures
            names(r@) == listing_of(self@),
            names(r@).to_set() == self@,
            ascending(names(r@)),
            names(r@).no_duplicates(),
    {
        self.known_ports.read()
    }

    /// Tells the poller to stop.
    pub fn shutdown(&mut self)
        ensures
            final(self)@ == old(self)@,
            final(self).poller().phase() == after_shutdown(old(self).poller().phase()),
            final(self).poller().naps_left() == old(self).poller().naps_left(),
            final(self).poller().naps_per_tick() == old(self).poller().naps_per_tick(),
            final(self).poller().interval() == old(self).poller().interval(),
            final(self).poller().markers() == old(self).poller().markers(),
    {
        self.discovery.shutdown();
    }

    /// Decides what the loop does next, as the poller does.
    pub fn next_action(&mut self, signalled: bool) -> (action: Action)
        ensures
            final(self)@ == old(self)@,
            action == decided(old(self).poller().phase(), old(self).poller().naps_left(), signalled),
            final(self).poller().phase() == phase_after(old(self).poller().phase(), signalled),
            final(self).poller().naps_left() == (match action {
                Action::Exit => old(self).poller().naps_left(),
                Action::Snapshot => old(self).poller().naps_per_tick(),
                Action::Nap => (old(self).poller().naps_left() - 1) as nat,
            }),
            final(self).poller().naps_per_tick() == old(self).poller().naps_per_tick(),
            final(self).poller().interval() == old(self).poller().interval(),
            final(self).poller().markers() == old(self).poller().markers(),
    {
        self.discovery.next_action(signalled)
    }

    /// The length of one nap, in milliseconds.
    pub fn nap_millis(&self) -> (r: u64)
        ensures
            self.poller().naps_per_tick() > 0,
            r == self.poller().interval() / self.poller().naps_per_tick(),
    {
        self.discovery.nap_millis()
    }

    /// One tick: takes the outcome of an enumeration to the inventory and
    /// gives the events to send, each with the time at which it was made.
    pub fn tick(&mut self, outcome: Result<Vec<String>, String>) -> (events: Vec<SerialEvent>)
        ensures
            final(self)@ == known_after_tick(old(self).poller().markers(), old(self)@, observed(outcome)),
            serial_changes_of(events@) == published_by_tick(
                old(self).poller().markers(),
                old(self)@,
                observed(outcome),
            ),
            outcome is Err ==> events@.len() == 0,
            final(self).poller() == old(self).poller(),
    {
        let events = self.discovery.tick(&mut self.known_ports, outcome);
        stamp_all(events)
    }
}

/// The lines that report a sequence of changes, one for one.
pub open spec fn lines_of(published: Seq<Change>) -> Seq<Seq<char>> {
    Seq::new(published.len(), |i: int| line_of(published[i]))
}

/// The line that reports a failed enumeration.
pub open spec fn failure_line(reason: Seq<char>) -> Seq<char> {
    "Error listing ports: "@ + reason
}

/// The line that reports a failed enumeration.
pub fn failure_report(reason: &str) -> (line: String)
    ensures
        line@ == failure_line(reason@),
{
    String::from_str("Error listing ports: ").concat(reason)
}

/// The lines that a tick of the plain manager reports: one per change.
pub open spec fn lines_by_tick(
    markers: Option<(Seq<char>, Seq<char>)>,
    known: Set<Seq<char>>,
    outcome: Result<Vec<String>, String>,
) -> Seq<Seq<char>> {
    lines_of(published_by_tick(markers, known, observed(outcome)))
}

/// The plain manager of serial devices: it keeps the inventory as the
/// serial manager does, under the same rule, and reports each change as a
/// line of text.
pub struct CerialManager {
    known_ports: Inventory,
    discovery: DiscoveryService,
}

impl View for CerialManager {
    type V = Set<Seq<char>>;

    /// The names of the devices currently believed attached.
    closed spec fn view(&self) -> Set<Seq<char>> {
        self.known_ports@
    }
}

impl CerialManager {
    /// The poller of this manager.
    pub closed spec fn poller(&self) -> DiscoveryService {
        self.discovery
    }

    /// A manager that knows no device yet. Its poller runs on the standard
    /// schedule and with the rule for serial devices, and its first action
    /// is a snapshot.
    pub fn new() -> (r: CerialManager)
        ensures
            r@ == Set::<Seq<char>>::empty(),
            r.poller().phase() == Phase::Running,
            r.poller().naps_left() == 0,
            r.poller().naps_per_tick() == 20,
            r.poller().interval() == 2000,
            r.poller().markers() == Some(("/dev/tty."@, "/dev/cu."@)),
    {
        CerialManager {
            known_ports: Inventory::new(),
            discovery: DiscoveryService::spawn(
                Some(AliasRule::serial_devices()),
                Schedule::standard(),
            ),
        }
    }

    /// The names of the devices currently believed attached, in ascending
    /// order, each once.
    pub fn get_ports(&self) -> (r: Vec<String>)
        ensures
            names(r@) == listing_of(self@),
            names(r@).to_set() == self@,
            ascending(names(r@)),
            names(r@).no_duplicates(),
    {
        self.known_ports.read()
    }

    /// Tells the poller to stop.
    pub fn shutdown(&mut self)
        ensures
            final(self)@ == old(self)@,
            final(self).poller().phase() == after_shutdown(old(self).poller().phase()),
            final(self).poller().naps_left() == old(self).poller().naps_left(),
            final(self).poller().naps_per_tick() == old(self).poller().naps_per_tick(),
            final(self).poller().interval() == old(self).poller().interval(),
            final(self).poller().markers() == old(self).poller().markers(),
    {
        self.discovery.shutdown();
    }

    /// Decides what the loop does next, as the poller does.
    pub fn next_action(&mut self, signalled: bool) -> (action: Action)
        ensures
            final(self)@ == old(self)@,
            action == decided(old(self).poller().phase(), old(self).poller().naps_left(), signalled),
            final(self).poller().phase() == phase_after(old(self).poller().phase(), signalled),
            final(self).poller().naps_left() == (match action {
                Action::Exit => old(self).poller().naps_left(),
                Action::Snapshot => old(self).poller().naps_per_tick(),
                Action::Nap => (old(self).poller().naps_left() - 1) as nat,
            }),
            final(self).poller().naps_per_tick() == old(self).poller().naps_per_tick(),
            final(self).poller().interval() == old(self).poller().interval(),
            final(self).poller().markers() == old(self).poller().markers(),
    {
        self.discovery.next_action(signalled)
    }

    /// The length of one nap, in milliseconds.
    pub fn nap_millis(&self) -> (r: u64)
        ensures
            self.poller().naps_per_tick() > 0,
            r == self.poller().interval() / self.poller().naps_per_tick(),
    {
        self.discovery.nap_millis()
    }

    /// One tick: takes the outcome of an enumeration to the inventory and
    /// gives the lines to print, one per change. A failed enumeration gives
    /// none.
    pub fn tick(&mut self, outcome: Result<Vec<String>, String>) -> (lines: Vec<String>)
        ensures
            final(self)@ == known_after_tick(old(self).poller().markers(), old(self)@, observed(outcome)),
            names(lines@) == lines_by_tick(old(self).poller().markers(), old(self)@, outcome),
            outcome is Err ==> lines@.len() == 0,
            final(self).poller() == old(self).poller(),
    {
        let events = self.discovery.tick(&mut self.known_ports, outcome);
        let mut lines: Vec<String> = Vec::new();
        let mut i: usize = 0;
        while i < events.len()
            invariant
                i <= events.len(),
                lines@.len() == i,
                forall|k: int| 0 <= k < i ==> (#[trigger] lines@[k])@ == line_of(events@[k]@),
            decreases events.len() - i,
        {
            lines.push(events[i].log_line());
            i += 1;
        }
        proof {
            assert(names(lines@) =~= lines_of(changes_of(events@)));
        }
        lines
    }
}

} // verus!
