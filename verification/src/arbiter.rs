//! The host's single way to the drive.
//!
//! Reads and writes are answered; the drive answers them in the order in
//! which they arrive and does not say which request an answer belongs to.
//! So the host lets one request through at a time: while an answer is
//! awaited nothing else is sent. Messages that come in are told apart by
//! whom they are for.

use vstd::prelude::*;
use crate::address::{ContainerGetter, ContainerSetter, Value};
use crate::common::{DeviceToHost, HostToDevice, Report};

verus! {

/// Whom a message from the drive is for.
#[derive(Clone, Copy, Debug, PartialEq, Eq, Structural)]
pub enum Route {
    /// For the view of the probes: a sample or a confirmation.
    Scope,
    /// For the arbiter: the answer to a read or a write.
    Reply,
}

/// Whom a report is for.
pub open spec fn spec_route(report: Report) -> Route {
    match report {
        Report::SetterReply(_) => Route::Reply,
        Report::GetterReply(_) => Route::Reply,
        _ => Route::Scope,
    }
}

/// Tells whom a message from the drive is for.
pub fn route(message: &DeviceToHost) -> (r: Route)
    ensures
        r == spec_route(message@),
{
    match message {
        DeviceToHost::SetterReply(_) => Route::Reply,
        DeviceToHost::GetterReply(_) => Route::Reply,
        _ => Route::Scope,
    }
}

/// A request to the drive.
#[derive(Clone, Copy, Debug, PartialEq, Eq, Structural)]
pub enum ArbiterReq {
    /// Read a value and wait for it.
    Getter(ContainerGetter),
    /// Write a value and wait for the outcome.
    Setter(ContainerSetter),
    /// Send a command that is not answered.
    Other(HostToDevice),
}

/// Whether a command is sent without waiting for an answer: a change of
/// the probes or of the interval.
pub open spec fn unanswered(command: HostToDevice) -> bool {
    !(command is Setter) && !(command is Getter)
}

impl ArbiterReq {
    /// The command that a request sends.
    pub open spec fn command(self) -> HostToDevice {
        match self {
            ArbiterReq::Getter(g) => HostToDevice::Getter(g),
            ArbiterReq::Setter(s) => HostToDevice::Setter(s),
            ArbiterReq::Other(c) => c,
        }
    }

    /// Whether a request is sound: a read, a write, or a command that is
    /// not answered.
    pub open spec fn sound(self) -> bool {
        self matches ArbiterReq::Other(c) ==> unanswered(c)
    }

    /// The request that sends `x` without waiting; there is none for a
    /// read or a write, which are answered.
    pub fn other(x: HostToDevice) -> (r: Option<ArbiterReq>)
        ensures
            r == if unanswered(x) {
                Some(ArbiterReq::Other(x))
            } else {
                None
            },
    {
        match x {
            HostToDevice::Setter(_) | HostToDevice::Getter(_) => None,
            _ => Some(ArbiterReq::Other(x)),
        }
    }
}

/// What the arbiter awaits.
#[derive(Clone, Copy, Debug, PartialEq, Eq, Structural)]
pub enum Awaited {
    Nothing,
    /// The value of a read.
    Value,
    /// The outcome of a write.
    Outcome,
}

/// What an answer settles.
#[derive(Clone, Copy, Debug)]
pub enum Resolution {
    /// The read gave this value, or failed.
    Value(Result<Value, ()>),
    /// The write was done, or failed.
    Outcome(Result<(), ()>),
}

/// Why the arbiter did not go along.
#[derive(Clone, Copy, Debug, PartialEq, Eq, Structural)]
pub enum ArbiterError {
    /// An answer is awaited; nothing is sent before it has come or has
    /// been given up.
    Busy,
    /// A read or a write was passed off as a command that is not answered.
    Unsound,
    /// A message came that does not answer what is awaited.
    Unexpected,
}

/// The arbiter.
#[derive(Clone, Copy, Debug, PartialEq, Eq, Structural)]
pub struct Arbiter {
    pub awaiting: Awaited,
}

impl Arbiter {
    /// What the arbiter awaits after it has let `request` through.
    pub open spec fn awaited_after(request: ArbiterReq) -> Awaited {
        match request {
            ArbiterReq::Getter(_) => Awaited::Value,
            ArbiterReq::Setter(_) => Awaited::Outcome,
            ArbiterReq::Other(_) => Awaited::Nothing,
        }
    }

    /// What a report settles for an arbiter that awaits `awaiting`: the value
    /// for an awaited read, the outcome for an awaited write, and nothing
    /// in any other case.
    pub open spec fn settled_by(awaiting: Awaited, report: Report) -> Option<Resolution> {
        match (awaiting, report) {
            (Awaited::Value, Report::GetterReply(r)) => Some(Resolution::Value(r)),
            (Awaited::Outcome, Report::SetterReply(r)) => Some(Resolution::Outcome(r)),
            _ => None,
        }
    }

    /// An arbiter that awaits nothing.
    pub fn start() -> (r: Arbiter)
        ensures
            r.awaiting == Awaited::Nothing,
    {
        Arbiter { awaiting: Awaited::Nothing }
    }

    /// Lets a request through, if nothing is awaited, and gives the
    /// command to send. A read or a write is awaited from then on.
    pub fn begin(&mut self, request: ArbiterReq) -> (r: Result<HostToDevice, ArbiterError>)
        ensures
            r == if old(self).awaiting != Awaited::Nothing {
                Err::<HostToDevice, ArbiterError>(ArbiterError::Busy)
            } else if !request.sound() {
                Err::<HostToDevice, ArbiterError>(ArbiterError::Unsound)
            } else {
                Ok::<HostToDevice, ArbiterError>(request.command())
            },
            final(self).awaiting == if r is Ok {
                Self::awaited_after(request)
            } else {
                old(self).awaiting
            },
    {
        match self.awaiting {
            Awaited::Nothing => {},
            _ => {
                return Err(ArbiterError::Busy);
            },
        }
        match request {
            ArbiterReq::Getter(g) => {
                self.awaiting = Awaited::Value;
                Ok(HostToDevice::Getter(g))
            },
            ArbiterReq::Setter(s) => {
                self.awaiting = Awaited::Outcome;
                Ok(HostToDevice::Setter(s))
            },
            ArbiterReq::Other(c) => match c {
                HostToDevice::Setter(_) | HostToDevice::Getter(_) => Err(ArbiterError::Unsound),
                _ => Ok(c),
            },
        }
    }

    /// Takes in a message from the drive. The answer that is awaited
    /// settles the request, and nothing is awaited any more. Any other
    /// message is an error and changes nothing.
    pub fn resolve(&mut self, reply: &DeviceToHost) -> (r: Result<Resolution, ArbiterError>)
        ensures
            match Self::settled_by(old(self).awaiting, reply@) {
                Some(resolution) => r == Ok::<Resolution, ArbiterError>(resolution)
                    && final(self).awaiting == Awaited::Nothing,
                None => r == Err::<Resolution, ArbiterError>(ArbiterError::Unexpected)
                    && final(self).awaiting == old(self).awaiting,
            },
    {
        match (self.awaiting, reply) {
            (Awaited::Value, DeviceToHost::GetterReply(r)) => {
                self.awaiting = Awaited::Nothing;
                Ok(Resolution::Value(*r))
            },
            (Awaited::Outcome, DeviceToHost::SetterReply(r)) => {
                self.awaiting = Awaited::Nothing;
                Ok(Resolution::Outcome(*r))
            },
            _ => Err(ArbiterError::Unexpected),
        }
    }

    /// Gives up on the answer that is awaited, as when it has not come in
    /// time.
    pub fn give_up(&mut self)
        ensures
            final(self).awaiting == Awaited::Nothing,
    {
        self.awaiting = Awaited::Nothing;
    }
}

/// The number of reads and writes that the drive has yet to answer, as
/// far as the arbiter can tell.
pub open spec fn in_flight(arbiter: Arbiter) -> nat {
    if arbiter.awaiting == Awaited::Nothing {
        0
    } else {
        1
    }
}

/// A read or a write is let through only while none is in flight, and
/// leaves one in flight; a command that is not answered leaves none. So
/// there is never more than one.
pub proof fn lemma_one_in_flight(before: Arbiter, request: ArbiterReq)
    requires
        request.sound(),
    ensures
        in_flight(before) <= 1,
        in_flight(before) == 1 ==> !(before.awaiting == Awaited::Nothing),
        before.awaiting == Awaited::Nothing ==> in_flight(
            Arbiter { awaiting: Arbiter::awaited_after(request) },
        ) == if unanswered(request.command()) {
            0nat
        } else {
            1nat
        },
{
}

} // verus!
