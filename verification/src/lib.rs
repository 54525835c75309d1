//! A polling discovery engine: it keeps a live inventory of enumerable
//! resources (serial devices, advertised network services), computes what
//! arrived and what departed between two observations, and decides when the
//! polling loop takes a snapshot, naps, or exits.
//!
//! The library holds the decisions and the data. Whatever enumerates devices,
//! sleeps, locks or sends is done by the caller, which hands plain values in
//! and takes plain values back.
//!
//! - `text`, `listing`, `names`: names as character sequences, their order,
//!   and sets of names kept in that order.
//! - `alias`: the rule that drops the incoming name of a device listed under
//!   two names.
//! - `inventory`, `events`: the names believed live, and the changes between
//!   two observations.
//! - `schedule`, `discovery`: the timing of the loop, its decisions, and the
//!   tick.
//! - `manager`, `ports`, `mdns`: the serial managers, single questions about
//!   serial ports, and the devices found on the network.
//! - `laws`: what holds over many ticks and many calls.

pub mod text;
pub mod listing;
pub mod names;
pub mod alias;
pub mod events;
pub mod inventory;
pub mod schedule;
pub mod discovery;
pub mod laws;
pub mod mdns;
pub mod manager;
pub mod ports;
