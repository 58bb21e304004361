use vstd::prelude::*;

verus! {

/// The admission gate's state.
#[derive(Debug, Clone, Copy, PartialEq, Eq, Structural)]
pub enum GateState {
    Running,
    Draining,
    Stopped,
}

#[derive(Debug, Clone, Copy, PartialEq, Eq, Structural)]
pub enum AdmissionError {
    /// Admission is closed: the service is draining or stopped.
    ServiceDraining,
}

/// What becomes of a call that finishes.
#[derive(Debug, Clone, Copy, PartialEq, Eq, Structural)]
pub enum CallDisposition {
    /// Its result is applied as usual.
    Apply,
    /// The drain budget ran out before it finished: it is failed as a
    /// transient error, so the caller may retry later.
    ForceFail,
}

/// Drains the admission path when a critical dependency fails. Times are
/// milliseconds on one monotonic clock.
#[derive(Debug, Clone, Copy, PartialEq, Eq, Structural)]
pub struct ShutdownCoordinator {
    pub state: GateState,
    /// Calls admitted and not yet finished.
    pub in_flight: u64,
    pub drain_timeout: u64,
    /// When draining, the time after which unfinished calls are force-failed.
    pub deadline: u64,
}

impl ShutdownCoordinator {
    pub open spec fn wf(self) -> bool {
        self.state == GateState::Stopped ==> self.in_flight == 0
    }

    pub fn new(drain_timeout: u64) -> (r: Self)
        ensures
            r.wf(),
            r == (ShutdownCoordinator {
                state: GateState::Running,
                in_flight: 0,
                drain_timeout,
                deadline: 0,
            }),
    {
        ShutdownCoordinator { state: GateState::Running, in_flight: 0, drain_timeout, deadline: 0 }
    }

    /// Admits a new payment while running; refuses it otherwise.
    pub fn try_admission(&mut self) -> (r: Result<(), AdmissionError>)
        requires
            old(self).wf(),
            old(self).in_flight < u64::MAX,
        ensures
            final(self).wf(),
            old(self).state == GateState::Running ==> r is Ok && *final(self) == (
            ShutdownCoordinator { in_flight: (old(self).in_flight + 1) as u64, ..*old(self) }),
            old(self).state != GateState::Running ==> r == Err::<(), AdmissionError>(
                AdmissionError::ServiceDraining,
            ) && *final(self) == *old(self),
    {
        if self.state != GateState::Running {
            return Err(AdmissionError::ServiceDraining);
        }
        self.in_flight = self.in_flight + 1;
        Ok(())
    }

    /// The dependency-liveness signal: close admission and start draining, or
    /// stop at once when nothing is in flight. A repeated signal is ignored.
    pub fn on_dependency_failure(&mut self, now: u64)
        requires
            old(self).wf(),
        ensures
            final(self).wf(),
            old(self).state != GateState::Running ==> *final(self) == *old(self),
            old(self).state == GateState::Running ==> *final(self) == (ShutdownCoordinator {
                state: if old(self).in_flight == 0 {
                    GateState::Stopped
                } else {
                    GateState::Draining
                },
                deadline: if now as int + old(self).drain_timeout > u64::MAX {
                    u64::MAX
                } else {
                    (now + old(self).drain_timeout) as u64
                },
                ..*old(self)
            }),
    {
        if self.state != GateState::Running {
            return;
        }
        self.deadline = now.saturating_add(self.drain_timeout);
        self.state = if self.in_flight == 0 {
            GateState::Stopped
        } else {
            GateState::Draining
        };
    }

    /// A call admitted earlier finished at `now`. Within the drain budget its
    /// result is applied; the last one to finish stops the coordinator.
    pub fn complete(&mut self, now: u64) -> (r: CallDisposition)
        requires
            old(self).wf(),
        ensures
            final(self).wf(),
            old(self).state == GateState::Running ==> r == CallDisposition::Apply && *final(self)
                == (ShutdownCoordinator {
                in_flight: if old(self).in_flight > 0 {
                    (old(self).in_flight - 1) as u64
                } else {
                    0
                },
                ..*old(self)
            }),
            old(self).state == GateState::Draining && now <= old(self).deadline ==> r
                == CallDisposition::Apply && final(self).in_flight == (if old(self).in_flight > 0 {
                old(self).in_flight - 1
            } else {
                0int
            }) && final(self).state == (if final(self).in_flight == 0 {
                GateState::Stopped
            } else {
                GateState::Draining
            }) && final(self).deadline == old(self).deadline && final(self).drain_timeout == old(
                self,
            ).drain_timeout,
            old(self).state == GateState::Draining && now > old(self).deadline ==> r
                == CallDisposition::ForceFail && *final(self) == (ShutdownCoordinator {
                state: GateState::Stopped,
                in_flight: 0,
                ..*old(self)
            }),
            old(self).state == GateState::Stopped ==> r == CallDisposition::ForceFail
                && *final(self) == *old(self),
    {
        match self.state {
            GateState::Running => {
                if self.in_flight > 0 {
                    self.in_flight = self.in_flight - 1;
                }
                CallDisposition::Apply
            },
            GateState::Draining => {
                if now > self.deadline {
                    self.state = GateState::Stopped;
                    self.in_flight = 0;
                    return CallDisposition::ForceFail;
                }
                if self.in_flight > 0 {
                    self.in_flight = self.in_flight - 1;
                }
                if self.in_flight == 0 {
                    self.state = GateState::Stopped;
                }
                CallDisposition::Apply
            },
            GateState::Stopped => CallDisposition::ForceFail,
        }
    }

    /// Clock tick while draining: once the budget is spent, the calls still in
    /// flight are force-failed and the coordinator stops. Returns whether it
    /// is stopped.
    pub fn tick(&mut self, now: u64) -> (r: bool)
        requires
            old(self).wf(),
        ensures
            final(self).wf(),
            old(self).state == GateState::Draining && now > old(self).deadline ==> *final(self) == (
            ShutdownCoordinator { state: GateState::Stopped, in_flight: 0, ..*old(self) }),
            !(old(self).state == GateState::Draining && now > old(self).deadline) ==> *final(self)
                == *old(self),
            r == (final(self).state == GateState::Stopped),
    {
        if self.state == GateState::Draining && now > self.deadline {
            self.state = GateState::Stopped;
            self.in_flight = 0;
        }
        self.state == GateState::Stopped
    }
}

} // verus!
