//! The identifier factory: one shared atomic counter plus cached machine
//! and process ids.
//!
//! A single factory instance is meant to be shared across threads; every
//! generation performs one sequentially-consistent fetch-and-increment on
//! the counter, so no two calls on one instance observe the same counter
//! value until the 32-bit cell wraps.

use core::sync::atomic::{AtomicU32, Ordering};
use vstd::prelude::*;
use vstd::string::StringSliceAdditionalSpecFns;

use crate::error::{DecodeError, Error};
use crate::host_id::MachineIdBytes;
use crate::id::{packed_bytes, Pxid};

verus! {

/// Relies on rand::random: an arbitrary unsigned 32-bit value.
#[verifier::external_body]
fn random_u32() -> u32 {
    rand::random()
}

/// Relies on SystemTime::now and duration_since: the clock's seconds since
/// the Unix epoch, truncated to 32 bits; a clock before the epoch reads as
/// zero.
#[verifier::external_body]
pub(crate) fn current_timestamp() -> u32 {
    match std::time::SystemTime::now().duration_since(std::time::UNIX_EPOCH) {
        Ok(d) => d.as_secs() as u32,
        Err(_) => 0,
    }
}

/// A factory of identifiers. The counter cell is shared state: reading it
/// advances it atomically, and only its low 24 bits reach an identifier.
pub struct Factory {
    counter: AtomicU32,
    process_id: u16,
    machine_id: MachineIdBytes,
}

impl Factory {
    /// The machine id this factory stamps into identifiers.
    pub closed spec fn machine(&self) -> Seq<u8> {
        self.machine_id@
    }

    /// The process id this factory stamps into identifiers.
    pub closed spec fn pid(&self) -> u16 {
        self.process_id
    }

    /// Builds a factory around the injected machine and process ids, seeding
    /// the counter with a random value so that two freshly started processes
    /// rarely begin at the same count.
    pub fn new(machine_id: MachineIdBytes, process_id: u16) -> (f: Factory)
        ensures
            f.machine() == machine_id@,
            f.pid() == process_id,
    {
        Factory { counter: AtomicU32::new(random_u32()), process_id, machine_id }
    }

    /// Builds a factory with a caller-chosen counter seed; only the low
    /// 24 bits of the running count reach identifiers.
    pub fn with_counter_seed(machine_id: MachineIdBytes, process_id: u16, seed: u32) -> (f:
        Factory)
        ensures
            f.machine() == machine_id@,
            f.pid() == process_id,
    {
        Factory { counter: AtomicU32::new(seed), process_id, machine_id }
    }

    /// Creates an identifier stamped with the current time; equivalent to
    /// `new_with_time` at the clock's current second.
    pub fn new_id(&self, prefix: &str) -> (r: Result<Pxid, Error>)
        ensures
            match r {
                Ok(id) => {
                    &&& 1 <= prefix.spec_bytes().len() <= 4
                    &&& exists|t: u32, c: u32|
                        c < 0x1000000 && id@ == packed_bytes(
                            prefix.spec_bytes(),
                            t,
                            self.machine(),
                            self.pid(),
                            c,
                        )
                },
                Err(e) => match e {
                    Error::PrefixExceedsMaxLength(p) => prefix.spec_bytes().len() > 4 && p@
                        == prefix@,
                    Error::Decode(DecodeError::MissingPrefix(p)) => prefix.spec_bytes().len() == 0
                        && p@ == prefix@,
                    _ => false,
                },
            },
    {
        let t = current_timestamp();
        self.new_with_time(prefix, t)
    }

    /// Creates an identifier stamped with the given time: one atomic
    /// fetch-and-increment of the shared counter, whose low 24 bits become
    /// the counter field; the only failure paths are the prefix checks.
    pub fn new_with_time(&self, prefix: &str, time: u32) -> (r: Result<Pxid, Error>)
        ensures
            match r {
                Ok(id) => {
                    &&& 1 <= prefix.spec_bytes().len() <= 4
                    &&& exists|c: u32|
                        c < 0x1000000 && id@ == packed_bytes(
                            prefix.spec_bytes(),
                            time,
                            self.machine(),
                            self.pid(),
                            c,
                        )
                },
                Err(e) => match e {
                    Error::PrefixExceedsMaxLength(p) => prefix.spec_bytes().len() > 4 && p@
                        == prefix@,
                    Error::Decode(DecodeError::MissingPrefix(p)) => prefix.spec_bytes().len() == 0
                        && p@ == prefix@,
                    _ => false,
                },
            },
    {
        let raw = self.counter.fetch_add(1, Ordering::SeqCst);
        let c = raw % 0x1000000;
        let r = Pxid::from_parts(prefix, time, self.machine_id, self.process_id, c);
        proof {
            if r is Ok {
                let id = r->Ok_0;
                assert(exists|cc: u32|
                    cc < 0x1000000 && id@ == packed_bytes(
                        prefix.spec_bytes(),
                        time,
                        self.machine(),
                        self.pid(),
                        cc,
                    )) by {
                    assert(c < 0x1000000 && id@ == packed_bytes(
                        prefix.spec_bytes(),
                        time,
                        self.machine(),
                        self.pid(),
                        c,
                    ));
                }
            }
        }
        r
    }
}

} // verus!
