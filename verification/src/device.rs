//! The device port: raw byte-level access to the e-paper controller.
//!
//! The panel driver only needs command/data transmit, the reset line,
//! the busy line and a bounded sleep. A ghost transcript of successful
//! transmissions lets the driver's contract pin down exactly which bytes
//! reached the controller, whatever the port does physically.
use crate::error::WmError;
use vstd::prelude::*;

verus! {

/// One transmission on the device port, as the contracts record it.
pub enum BusOp {
    Command(u8),
    Data(Seq<u8>),
    Reset(bool),
}

/// Raw access to the controller. Implementations are free to fail a
/// transmission (a bus or GPIO fault); a failed call promises nothing
/// about the transcript, and the driver aborts the draw on it.
pub trait Device {
    /// Everything successfully transmitted so far, oldest first.
    spec fn transcript(&self) -> Seq<BusOp>;

    /// Sends one command byte (data/command select driven low).
    fn send_command(&mut self, cmd: u8) -> (r: Result<(), WmError>)
        ensures
            r is Ok ==> final(self).transcript() == old(self).transcript().push(
                BusOp::Command(cmd),
            ),
    ;

    /// Sends a burst of data bytes (data/command select driven high).
    fn send_data(&mut self, data: &[u8]) -> (r: Result<(), WmError>)
        ensures
            r is Ok ==> final(self).transcript() == old(self).transcript().push(
                BusOp::Data(data@),
            ),
    ;

    /// Drives the reset line to the given level.
    fn set_reset(&mut self, level: bool) -> (r: Result<(), WmError>)
        ensures
            r is Ok ==> final(self).transcript() == old(self).transcript().push(
                BusOp::Reset(level),
            ),
    ;

    /// Samples the busy line; `true` while the controller is refreshing.
    fn read_busy(&self) -> bool;

    /// Sleeps for at least the given number of milliseconds.
    fn delay_ms(&self, ms: u32);
}

/// An executable mirror of [`BusOp`], for ports that keep their
/// transmissions in memory.
#[derive(Clone, Debug, PartialEq, Eq)]
pub enum PortEvent {
    Command(u8),
    Data(Vec<u8>),
    Reset(bool),
}

impl View for PortEvent {
    type V = BusOp;

    open spec fn view(&self) -> BusOp {
        match self {
            PortEvent::Command(c) => BusOp::Command(*c),
            PortEvent::Data(d) => BusOp::Data(d@),
            PortEvent::Reset(l) => BusOp::Reset(*l),
        }
    }
}

/// A port that transmits nowhere and records every operation: its busy
/// line is never asserted and no transmission fails. Serves test
/// harnesses and dry runs that inspect what a draw would send.
pub struct RecordingPort {
    pub events: Vec<PortEvent>,
}

impl RecordingPort {
    /// The recorded transmissions, oldest first.
    pub open spec fn recorded(self) -> Seq<BusOp> {
        self.events@.map_values(|e: PortEvent| e@)
    }

    /// A port with an empty record.
    pub fn new() -> (r: RecordingPort)
        ensures
            r.events@.len() == 0,
            r.recorded() == Seq::<BusOp>::empty(),
    {
        let r = RecordingPort { events: Vec::new() };
        proof {
            assert(r.recorded() =~= Seq::<BusOp>::empty());
        }
        r
    }
}

impl Device for RecordingPort {
    open spec fn transcript(&self) -> Seq<BusOp> {
        self.recorded()
    }

    fn send_command(&mut self, cmd: u8) -> (r: Result<(), WmError>) {
        self.events.push(PortEvent::Command(cmd));
        proof {
            assert(self.recorded() =~= old(self).recorded().push(BusOp::Command(cmd)));
        }
        Ok(())
    }

    fn send_data(&mut self, data: &[u8]) -> (r: Result<(), WmError>) {
        let mut copy: Vec<u8> = Vec::new();
        let mut i: usize = 0;
        while i < data.len()
            invariant
                i <= data@.len(),
                copy@ == data@.subrange(0, i as int),
            decreases data@.len() - i,
        {
            copy.push(data[i]);
            proof {
                assert(copy@ =~= data@.subrange(0, i + 1));
            }
            i = i + 1;
        }
        proof {
            assert(copy@ =~= data@);
        }
        self.events.push(PortEvent::Data(copy));
        proof {
            assert(self.recorded() =~= old(self).recorded().push(BusOp::Data(data@)));
        }
        Ok(())
    }

    fn set_reset(&mut self, level: bool) -> (r: Result<(), WmError>) {
        self.events.push(PortEvent::Reset(level));
        proof {
            assert(self.recorded() =~= old(self).recorded().push(BusOp::Reset(level)));
        }
        Ok(())
    }

    fn read_busy(&self) -> bool {
        false
    }

    fn delay_ms(&self, _ms: u32) {
    }
}

} // verus!
