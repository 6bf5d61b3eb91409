//! The level monitor's state: whether it measures real PipeWire levels or
//! simulates them, and the flag that keeps its worker running.

use vstd::prelude::*;
use std::sync::Arc;
use std::sync::atomic::AtomicBool;
use std::sync::atomic::Ordering;

verus! {

/// The mode line of a monitor.
pub open spec fn monitoring_mode_text(live: bool) -> Seq<char> {
    if live {
        "Real-time PipeWire Monitoring"@
    } else {
        "Simulation Mode (PipeWire not detected)"@
    }
}

/// The audio level monitor. Its worker runs while the shared flag is set;
/// the flag is an atomic shared with that worker, whose value the
/// verification does not follow.
pub struct PipeWireMonitor {
    running: Arc<AtomicBool>,
    use_real_monitoring: bool,
}

impl PipeWireMonitor {
    /// Whether the monitor measures real levels.
    pub closed spec fn uses_real(self) -> bool {
        self.use_real_monitoring
    }

    /// The monitor's running flag, which its worker shares.
    pub closed spec fn flag(self) -> Arc<AtomicBool> {
        self.running
    }

    /// A stopped monitor that measures real levels where PipeWire was found
    /// and simulates them otherwise.
    pub fn new(pipewire_available: bool) -> (m: Self)
        ensures
            m.uses_real() == pipewire_available,
    {
        PipeWireMonitor {
            running: Arc::new(AtomicBool::new(false)),
            use_real_monitoring: pipewire_available,
        }
    }

    pub fn get_monitoring_mode(&self) -> (m: &'static str)
        ensures
            m@ == monitoring_mode_text(self.uses_real()),
    {
        if self.use_real_monitoring {
            "Real-time PipeWire Monitoring"
        } else {
            "Simulation Mode (PipeWire not detected)"
        }
    }

    /// Whether the monitor measures real levels.
    pub fn uses_real_monitoring(&self) -> (b: bool)
        ensures
            b == self.uses_real(),
    {
        self.use_real_monitoring
    }

    /// Sets the running flag, before the worker starts.
    pub fn mark_running(&self) {
        self.running.store(true, Ordering::SeqCst);
    }

    /// Clears the running flag: the worker ends at its next check.
    pub fn stop(&self) {
        self.running.store(false, Ordering::SeqCst);
    }

    /// Whether the running flag is set now.
    pub fn is_running(&self) -> bool {
        self.running.load(Ordering::SeqCst)
    }

    /// The running flag, to hand to the worker.
    pub fn running_flag(&self) -> (f: Arc<AtomicBool>)
        ensures
            f == self.flag(),
    {
        self.running.clone()
    }
}

} // verus!
