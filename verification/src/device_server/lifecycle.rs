//! Which parts of the device run, and in which order they are stopped.
use vstd::prelude::*;

verus! {

/// Which of the optional parts of the device run.
#[derive(Debug, Clone, Copy, PartialEq, Eq, Structural)]
pub struct Lifecycle {
    pub receiving: bool,
    pub transmitting: bool,
}

/// One step of stopping parts of the device. The steps are carried out in order.
#[derive(Debug, Clone, Copy, PartialEq, Eq, Structural)]
pub enum StopStep {
    /// Tell the servers that the receiving side no longer runs.
    DetachReceiver,
    /// Stop the receiving side and wait for its end.
    StopReceiver,
    /// Stop the transmitting side and wait for its end.
    StopTransmitter,
    /// Stop the servers and wait for their end.
    StopServers,
    /// Stop following the clock.
    StopClock,
}

/// The steps that switch the device off: first what depends on the servers, and the clock last.
pub open spec fn shutdown_steps(parts: Lifecycle) -> Seq<StopStep> {
    (if parts.receiving {
        seq![StopStep::StopReceiver]
    } else {
        Seq::empty()
    }) + (if parts.transmitting {
        seq![StopStep::StopTransmitter]
    } else {
        Seq::empty()
    }) + seq![StopStep::StopServers, StopStep::StopClock]
}

impl Lifecycle {
    /// A device that was just switched on neither receives nor transmits.
    pub fn start() -> (r: Self)
        ensures
            r == (Lifecycle { receiving: false, transmitting: false }),
    {
        Lifecycle { receiving: false, transmitting: false }
    }

    /// The receiving side was started.
    pub fn receive(&mut self)
        ensures
            *final(self) == (Lifecycle { receiving: true, ..*old(self) }),
    {
        self.receiving = true;
    }

    /// The transmitting side was started.
    pub fn transmit(&mut self)
        ensures
            *final(self) == (Lifecycle { transmitting: true, ..*old(self) }),
    {
        self.transmitting = true;
    }

    /// Stops the receiving side, which has to run.
    pub fn stop_receiver(&mut self) -> (steps: Vec<StopStep>)
        requires
            old(self).receiving,
        ensures
            steps@ == seq![StopStep::DetachReceiver, StopStep::StopReceiver],
            *final(self) == (Lifecycle { receiving: false, ..*old(self) }),
    {
        self.receiving = false;
        let steps: Vec<StopStep> = vec![StopStep::DetachReceiver, StopStep::StopReceiver];
        assert(steps@ =~= seq![StopStep::DetachReceiver, StopStep::StopReceiver]);
        steps
    }

    /// Stops the transmitting side, which has to run.
    pub fn stop_transmitter(&mut self) -> (steps: Vec<StopStep>)
        requires
            old(self).transmitting,
        ensures
            steps@ == seq![StopStep::StopTransmitter],
            *final(self) == (Lifecycle { transmitting: false, ..*old(self) }),
    {
        self.transmitting = false;
        let steps: Vec<StopStep> = vec![StopStep::StopTransmitter];
        assert(steps@ =~= seq![StopStep::StopTransmitter]);
        steps
    }

    /// Switches the device off.
    pub fn shutdown(self) -> (steps: Vec<StopStep>)
        ensures
            steps@ == shutdown_steps(self),
    {
        let mut steps: Vec<StopStep> = Vec::new();
        if self.receiving {
            steps.push(StopStep::StopReceiver);
        }
        if self.transmitting {
            steps.push(StopStep::StopTransmitter);
        }
        steps.push(StopStep::StopServers);
        steps.push(StopStep::StopClock);
        assert(steps@ =~= shutdown_steps(self));
        steps
    }
}

/// Switching the device off stops each side exactly if it runs, the sides before the servers, and
/// the clock last.
pub proof fn shutdown_stops_what_runs(parts: Lifecycle)
    ensures
        shutdown_steps(parts).contains(StopStep::StopReceiver) <==> parts.receiving,
        shutdown_steps(parts).contains(StopStep::StopTransmitter) <==> parts.transmitting,
        shutdown_steps(parts).last() == StopStep::StopClock,
        shutdown_steps(parts)[shutdown_steps(parts).len() - 2] == StopStep::StopServers,
{
    let steps = shutdown_steps(parts);
    if parts.receiving {
        assert(steps[0] == StopStep::StopReceiver);
    }
    if parts.transmitting {
        assert(steps[steps.len() - 3] == StopStep::StopTransmitter);
    }
}

} // verus!
