//! Single questions about the serial devices of the system: which names can
//! be opened, what kind of device stands behind each, and what a port says.
//! Each function takes what the system answered and gives the text to show.

use vstd::prelude::*;
use vstd::string::StringExecFns;
use crate::listing::names;
use crate::text::{chars_of, decimal, hex4, push_decimal, push_hex4, same_name, starts_with,
    starts_with_chars};

verus! {

/// What kind of device a port is, as far as its description needs it.
#[derive(Clone, Copy, Debug, PartialEq, Eq, Structural)]
pub enum PortKind {
    /// A USB device, with its vendor and product identifiers.
    Usb { vid: u16, pid: u16 },
    /// Any other port.
    Other,
}

/// A port as the system lists it: its name, its kind, and the text that
/// describes its type.
#[derive(Debug)]
pub struct PortInfo {
    pub port_name: String,
    pub kind: PortKind,
    pub type_text: String,
}

/// A listed port, with its texts as sequences of characters.
pub struct PortView {
    pub name: Seq<char>,
    pub kind: PortKind,
    pub type_text: Seq<char>,
}

impl View for PortInfo {
    type V = PortView;

    open spec fn view(&self) -> PortView {
        PortView { name: self.port_name@, kind: self.kind, type_text: self.type_text@ }
    }
}

/// The ports that a sequence holds, one for one.
pub open spec fn ports_of(v: Seq<PortInfo>) -> Seq<PortView> {
    Seq::new(v.len(), |i: int| v[i]@)
}

/// `name` without the slash at its end, if it has one.
pub open spec fn trimmed(name: Seq<char>) -> Seq<char> {
    if name.len() > 0 && name.last() == '/' {
        name.drop_last()
    } else {
        name
    }
}

/// `name` is the name of a device for incoming connections.
pub open spec fn incoming_only(name: Seq<char>) -> bool {
    starts_with(name, "/dev/tty."@)
}

/// The names of `listed` that can be opened: each without the slash at its
/// end, and none that is for incoming connections only. The order stays.
pub open spec fn usable(listed: Seq<Seq<char>>) -> Seq<Seq<char>>
    decreases listed.len(),
{
    if listed.len() == 0 {
        Seq::<Seq<char>>::empty()
    } else {
        let name = trimmed(listed.last());
        if incoming_only(name) {
            usable(listed.drop_last())
        } else {
            usable(listed.drop_last()).push(name)
        }
    }
}

/// The line that describes a device.
pub open spec fn device_line(name: Seq<char>, kind: PortKind) -> Seq<char> {
    match kind {
        PortKind::Usb { vid, pid } => name + " - USB Device (VID: "@ + hex4(vid) + ", PID: "@ + hex4(
            pid,
        ) + ")"@,
        PortKind::Other => name + " - Other"@,
    }
}

/// The lines that describe the devices of `listed` that can be opened.
pub open spec fn device_lines(listed: Seq<PortView>) -> Seq<Seq<char>>
    decreases listed.len(),
{
    if listed.len() == 0 {
        Seq::<Seq<char>>::empty()
    } else {
        let name = trimmed(listed.last().name);
        if incoming_only(name) {
            device_lines(listed.drop_last())
        } else {
            device_lines(listed.drop_last()).push(device_line(name, listed.last().kind))
        }
    }
}

/// The position of the first port of `listed` from `i` on that is named
/// `name`, or the length of `listed` where there is none.
pub open spec fn position_from(listed: Seq<PortView>, name: Seq<char>, i: int) -> int
    decreases listed.len() - i,
{
    if i < 0 || i >= listed.len() {
        listed.len() as int
    } else if listed[i].name == name {
        i
    } else {
        position_from(listed, name, i + 1)
    }
}

/// What is said of the port `name` among `listed`: its name and type, or
/// that it was not found.
pub open spec fn port_info(listed: Seq<PortView>, name: Seq<char>) -> Result<Seq<char>, Seq<char>> {
    let at = position_from(listed, name, 0);
    if at < listed.len() {
        Ok("Port: "@ + listed[at].name + ", Type: "@ + listed[at].type_text)
    } else {
        Err("Port "@ + name + " not found"@)
    }
}

/// The lines read from the port `name` opened at `baud_rate`.
pub open spec fn port_lines(name: Seq<char>, baud_rate: u32) -> Seq<Seq<char>> {
    seq![
        "Connected to "@ + name,
        "Baud rate: "@ + decimal(baud_rate as nat),
        "Mock data from serial port"@,
    ]
}

/// Line `number` of the log.
pub open spec fn log_line(number: nat) -> Seq<char> {
    "Serial Port X, Line "@ + decimal(number)
}

/// `name` without the slash at its end, if it has one.
pub fn trim_name(name: &str) -> (r: String)
    ensures
        r@ == trimmed(name@),
{
    let letters = chars_of(name);
    let n = letters.len();
    if n > 0 && letters[n - 1] == '/' {
        String::from_str(name.substring_char(0, n - 1))
    } else {
        String::from_str(name)
    }
}

/// Whether `name` is the name of a device for incoming connections.
pub fn is_incoming_only(name: &str) -> (r: bool)
    ensures
        r == incoming_only(name@),
{
    let letters = chars_of(name);
    let marker = chars_of("/dev/tty.");
    starts_with_chars(&letters, &marker)
}

/// The line that describes the device `name` of kind `kind`.
pub fn describe_device(name: &str, kind: PortKind) -> (line: String)
    ensures
        line@ == device_line(name@, kind),
{
    let mut line = String::from_str(name);
    match kind {
        PortKind::Usb { vid, pid } => {
            line.append(" - USB Device (VID: ");
            push_hex4(&mut line, vid);
            line.append(", PID: ");
            push_hex4(&mut line, pid);
            line.append(")");
        },
        PortKind::Other => {
            line.append(" - Other");
        },
    }
    line
}

/// The devices that can be opened, one line for each, or why the system
/// could not list them.
pub fn scan_for_devices(listed: Result<Vec<PortInfo>, String>) -> (r: Result<Vec<String>, String>)
    ensures
        match listed {
            Ok(ports) => r matches Ok(lines) && names(lines@) == device_lines(ports_of(ports@)),
            Err(reason) => r matches Err(text) && text@ == "Failed to scan for devices: "@
                + reason@,
        },
{
    match listed {
        Ok(ports) => {
            let mut lines: Vec<String> = Vec::new();
            let mut i: usize = 0;
            while i < ports.len()
                invariant
                    i <= ports.len(),
                    names(lines@) == device_lines(ports_of(ports@).take(i as int)),
                decreases ports.len() - i,
            {
                let ghost done = ports_of(ports@).take(i as int);
                proof {
                    assert(ports_of(ports@).take(i + 1).drop_last() =~= done);
                }
                let name = trim_name(ports[i].port_name.as_str());
                if !is_incoming_only(name.as_str()) {
                    let line = describe_device(name.as_str(), ports[i].kind);
                    lines.push(line);
                }
                i += 1;
            }
            proof {
                assert(ports_of(ports@).take(ports@.len() as int) =~= ports_of(ports@));
            }
            Ok(lines)
        },
        Err(reason) => Err(String::from_str("Failed to scan for devices: ").concat(reason.as_str())),
    }
}

/// Lines `offset + 1` to `offset + limit` of the log.
pub fn get_log_chunk(offset: usize, limit: usize) -> (lines: Vec<String>)
    requires
        offset + limit <= usize::MAX,
    ensures
        lines@.len() == limit,
        forall|i: int| 0 <= i < limit ==> (#[trigger] lines@[i])@ == log_line((offset + i + 1) as nat),
{
    let mut lines: Vec<String> = Vec::new();
    let mut i: usize = 0;
    while i < limit
        invariant
            i <= limit,
            offset + limit <= usize::MAX,
            lines@.len() == i,
            forall|k: int| 0 <= k < i ==> (#[trigger] lines@[k])@ == log_line((offset + k + 1) as nat),
        decreases limit - i,
    {
        let mut line = String::from_str("Serial Port X, Line ");
        push_decimal(&mut line, (offset + i + 1) as u64);
        lines.push(line);
        i += 1;
    }
    lines
}

/// The time for which an attempt to open a port may last, in milliseconds.
pub fn open_timeout_millis() -> (r: u64)
    ensures
        r == 1000,
{
    1000
}

/// Answers single questions about the serial ports. It keeps nothing: each
/// answer is made from what the system said just now.
pub struct SerialManager {}

impl SerialManager {
    /// A manager. All are alike.
    pub fn new() -> (r: SerialManager) {
        SerialManager {  }
    }

    /// The names that can be opened among those the system listed, or why
    /// it could not list them.
    pub fn get_available_ports(&self, listed: Result<Vec<String>, String>) -> (r: Result<
        Vec<String>,
        String,
    >)
        ensures
            match listed {
                Ok(raw) => r matches Ok(ports) && names(ports@) == usable(names(raw@)),
                Err(reason) => r matches Err(text) && text@ == "Failed to get serial ports: "@
                    + reason@,
            },
    {
        match listed {
            Ok(raw) => {
                let mut ports: Vec<String> = Vec::new();
                let mut i: usize = 0;
                while i < raw.len()
                    invariant
                        i <= raw.len(),
                        names(ports@) == usable(names(raw@).take(i as int)),
                    decreases raw.len() - i,
                {
                    let ghost done = names(raw@).take(i as int);
                    proof {
                        assert(names(raw@).take(i + 1).drop_last() =~= done);
                    }
                    let name = trim_name(raw[i].as_str());
                    if !is_incoming_only(name.as_str()) {
                        ports.push(name);
                    }
                    i += 1;
                }
                proof {
                    assert(names(raw@).take(raw@.len() as int) =~= names(raw@));
                }
                Ok(ports)
            },
            Err(reason) => Err(
                String::from_str("Failed to get serial ports: ").concat(reason.as_str()),
            ),
        }
    }

    /// What the port `port_name` says once it is open, or why it could not
    /// be opened. `opened` is how the attempt to open it went.
    pub fn read_from_port(&self, port_name: &str, baud_rate: u32, opened: Result<(), String>) -> (r:
        Result<Vec<String>, String>)
        ensures
            match opened {
                Ok(_) => r matches Ok(lines) && names(lines@) == port_lines(port_name@, baud_rate),
                Err(reason) => r matches Err(text) && text@ == "Failed to open port "@ + port_name@
                    + ": "@ + reason@,
            },
    {
        match opened {
            Ok(_) => {
                let mut lines: Vec<String> = Vec::new();
                lines.push(String::from_str("Connected to ").concat(port_name));
                let mut rate = String::from_str("Baud rate: ");
                push_decimal(&mut rate, baud_rate as u64);
                lines.push(rate);
                lines.push(String::from_str("Mock data from serial port"));
                Ok(lines)
            },
            Err(reason) => Err(
                String::from_str("Failed to open port ").concat(port_name).concat(": ").concat(
                    reason.as_str(),
                ),
            ),
        }
    }

    /// The name and type of the port `port_name` among those the system
    /// listed, or that it was not found, or why the system could not list
    /// them.
    pub fn get_port_info(&self, port_name: &str, listed: Result<Vec<PortInfo>, String>) -> (r:
        Result<String, String>)
        ensures
            match listed {
                Ok(ports) => match port_info(ports_of(ports@), port_name@) {
                    Ok(said) => r matches Ok(text) && text@ == said,
                    Err(said) => r matches Err(text) && text@ == said,
                },
                Err(reason) => r matches Err(text) && text@ == "Failed to get port info: "@
                    + reason@,
            },
    {
        match listed {
            Ok(ports) => {
                let mut i: usize = 0;
                while i < ports.len()
                    invariant
                        i <= ports.len(),
                        listed == Ok::<Vec<PortInfo>, String>(ports),
                        position_from(ports_of(ports@), port_name@, 0) == position_from(
                            ports_of(ports@),
                            port_name@,
                            i as int,
                        ),
                    decreases ports.len() - i,
                {
                    if same_name(ports[i].port_name.as_str(), port_name) {
                        let text = String::from_str("Port: ").concat(
                            ports[i].port_name.as_str(),
                        ).concat(", Type: ").concat(ports[i].type_text.as_str());
                        proof {
                            assert(ports_of(ports@)[i as int].name == port_name@);
                        }
                        return Ok(text);
                    }
                    proof {
                        assert(ports_of(ports@)[i as int].name != port_name@);
                    }
                    i += 1;
                }
                Err(String::from_str("Port ").concat(port_name).concat(" not found"))
            },
            Err(reason) => Err(String::from_str("Failed to get port info: ").concat(reason.as_str())),
        }
    }
}

} // verus!
