//! The audio-keepalive schedule: while playback holds an easily-sleeping
//! audio sink, a helper process is cycled through scan and device-listing
//! commands so the sink never idles out. The library decides which line
//! to write and how long to wait; the surrounding loop writes the lines
//! and sleeps.

use vstd::prelude::*;

verus! {

/// Where in the keepalive cycle the helper stands.
#[derive(Clone, Copy, PartialEq, Eq, Structural)]
pub enum KeepalivePhase {
    ScanOn,
    ScanOff,
    PairedFirst,
    PairedSecond,
}

/// A signal handed to the keepalive loop between waits.
#[derive(Clone, Copy, PartialEq, Eq, Structural)]
pub enum KeepaliveSignal {
    /// no signal arrived within the wait
    Quiet,
    /// shut the helper down
    Stop,
    /// hold a scan open for a while, then resume the cycle
    ScanPulse,
}

/// What the keepalive loop does next.
#[derive(Debug, PartialEq, Clone)]
pub enum KeepaliveStep {
    /// write the line, then wait the given seconds for a signal
    Write { line: String, wait_secs: u64 },
    /// write a scan line and busy-hold it for the given seconds
    Hold { line: String, hold_secs: u64 },
    /// kill the helper and stop
    Shutdown,
}

/// The keepalive schedule: a four-phase cycle.
pub struct BTKeepAlive {
    phase: KeepalivePhase,
}

/// The line the cycle writes in a phase.
pub open spec fn phase_line(p: KeepalivePhase) -> Seq<char> {
    match p {
        KeepalivePhase::ScanOn => "scan on\n"@,
        KeepalivePhase::ScanOff => "scan off\n"@,
        KeepalivePhase::PairedFirst => "paired-devices\n"@,
        KeepalivePhase::PairedSecond => "paired-devices\n"@,
    }
}

/// How long the cycle waits after a phase's line.
pub open spec fn phase_wait(p: KeepalivePhase) -> u64 {
    match p {
        KeepalivePhase::ScanOn => 20,
        KeepalivePhase::ScanOff => 10,
        KeepalivePhase::PairedFirst => 10,
        KeepalivePhase::PairedSecond => 10,
    }
}

/// The phase after a quiet wait.
pub open spec fn phase_next(p: KeepalivePhase) -> KeepalivePhase {
    match p {
        KeepalivePhase::ScanOn => KeepalivePhase::ScanOff,
        KeepalivePhase::ScanOff => KeepalivePhase::PairedFirst,
        KeepalivePhase::PairedFirst => KeepalivePhase::PairedSecond,
        KeepalivePhase::PairedSecond => KeepalivePhase::ScanOn,
    }
}

impl BTKeepAlive {
    pub closed spec fn phase(&self) -> KeepalivePhase {
        self.phase
    }

    /// A schedule at the cycle's start.
    pub fn new() -> (k: BTKeepAlive)
        ensures
            k.phase() == KeepalivePhase::ScanOn,
    {
        BTKeepAlive { phase: KeepalivePhase::ScanOn }
    }

    /// The next thing to do: write the current phase's line and wait its
    /// seconds.
    pub fn tick(&self) -> (s: KeepaliveStep)
        ensures
            s matches KeepaliveStep::Write { line, wait_secs } && line@ == phase_line(self.phase())
                && wait_secs == phase_wait(self.phase()),
    {
        let line = match self.phase {
            KeepalivePhase::ScanOn => String::from_str("scan on\n"),
            KeepalivePhase::ScanOff => String::from_str("scan off\n"),
            KeepalivePhase::PairedFirst => String::from_str("paired-devices\n"),
            KeepalivePhase::PairedSecond => String::from_str("paired-devices\n"),
        };
        let wait_secs: u64 = match self.phase {
            KeepalivePhase::ScanOn => 20,
            KeepalivePhase::ScanOff => 10,
            KeepalivePhase::PairedFirst => 10,
            KeepalivePhase::PairedSecond => 10,
        };
        KeepaliveStep::Write { line, wait_secs }
    }

    /// Decide on the signal the wait ended with: quiet advances the
    /// cycle, a stop shuts down, a scan pulse writes a scan line and
    /// holds it without advancing the cycle.
    pub fn on_signal(&mut self, sig: KeepaliveSignal) -> (s: KeepaliveStep)
        ensures
            sig == KeepaliveSignal::Quiet ==> final(self).phase() == phase_next(
                old(self).phase(),
            ) && (s matches KeepaliveStep::Write { line, wait_secs } && line@ == phase_line(
                final(self).phase(),
            ) && wait_secs == phase_wait(final(self).phase())),
            sig == KeepaliveSignal::Stop ==> final(self).phase() == old(self).phase()
                && s is Shutdown,
            sig == KeepaliveSignal::ScanPulse ==> final(self).phase() == old(self).phase() && (
            s matches KeepaliveStep::Hold { line, hold_secs } && line@ == "scan on\n"@ && hold_secs
                == 10),
    {
        match sig {
            KeepaliveSignal::Quiet => {
                self.phase = match self.phase {
                    KeepalivePhase::ScanOn => KeepalivePhase::ScanOff,
                    KeepalivePhase::ScanOff => KeepalivePhase::PairedFirst,
                    KeepalivePhase::PairedFirst => KeepalivePhase::PairedSecond,
                    KeepalivePhase::PairedSecond => KeepalivePhase::ScanOn,
                };
                self.tick()
            },
            KeepaliveSignal::Stop => KeepaliveStep::Shutdown,
            KeepaliveSignal::ScanPulse => KeepaliveStep::Hold {
                line: String::from_str("scan on\n"),
                hold_secs: 10,
            },
        }
    }
}

} // verus!
