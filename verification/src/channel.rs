//! One tracking channel: the per-satellite state that survives from one
//! code period to the next.
//!
//! The tracking loops themselves run outside the library in floating
//! point; each code period they hand the channel one plain value, the
//! normalized prompt in-phase correlator output in fixed point.

use vstd::prelude::*;
use crate::constants::{CORR_HIST_LEN, IP_SCALE};
use crate::navigation::Navigation;

verus! {

/// A GPS satellite vehicle identifier.
#[derive(Clone, Copy, Debug, PartialEq, Eq, Structural)]
pub struct Sv {
    pub prn: u8,
}

/// Tracking state of a channel.
#[derive(Clone, Copy, Debug, PartialEq, Eq, Structural)]
pub enum State {
    Acquisition,
    PullIn,
    Tracking,
    Lost,
}

/// Recent correlator outputs of one channel.
pub struct History {
    /// Normalized prompt in-phase values in units of `IP_SCALE`, oldest
    /// first; always exactly `CORR_HIST_LEN` entries, zero-filled at start.
    pub corr_p: Vec<i32>,
}

pub struct Channel {
    pub sv: Sv,
    /// Code periods processed so far (one per millisecond of signal).
    pub num_trk_samples: usize,
    pub hist: History,
    pub nav: Navigation,
}

impl Channel {
    pub open spec fn wf(self) -> bool {
        &&& self.hist.corr_p@.len() == CORR_HIST_LEN
        &&& (forall|i: int|
            0 <= i < CORR_HIST_LEN ==> -IP_SCALE <= #[trigger] self.hist.corr_p@[i] <= IP_SCALE)
        &&& self.nav.wf(self.num_trk_samples as int)
    }

    pub fn new(sv: Sv) -> (c: Channel)
        ensures
            c.wf(),
            c.sv == sv,
            c.num_trk_samples == 0,
            Navigation::spec_is_new(c.nav, sv),
            forall|i: int| 0 <= i < CORR_HIST_LEN ==> c.hist.corr_p@[i] == 0,
    {
        let mut corr_p: Vec<i32> = Vec::new();
        let mut i: usize = 0;
        while i < CORR_HIST_LEN
            invariant
                i <= CORR_HIST_LEN,
                corr_p@.len() == i,
                forall|k: int| 0 <= k < i ==> corr_p@[k] == 0,
            decreases CORR_HIST_LEN - i,
        {
            corr_p.push(0);
            i += 1;
        }
        Channel { sv, num_trk_samples: 0, hist: History { corr_p }, nav: Navigation::new(sv) }
    }

    /// Records the prompt correlator output of one code period: the oldest
    /// history entry leaves, the new value enters at the end, and the
    /// channel clock advances one millisecond.
    pub fn record_prompt(&mut self, ip: i32)
        requires
            old(self).wf(),
            -IP_SCALE <= ip <= IP_SCALE,
            old(self).num_trk_samples < usize::MAX,
        ensures
            final(self).wf(),
            final(self).sv == old(self).sv,
            final(self).nav == old(self).nav,
            final(self).num_trk_samples == old(self).num_trk_samples + 1,
            final(self).hist.corr_p@ == old(self).hist.corr_p@.subrange(
                1,
                CORR_HIST_LEN as int,
            ).push(ip),
    {
        self.hist.corr_p.remove(0);
        self.hist.corr_p.push(ip);
        self.num_trk_samples = self.num_trk_samples + 1;
        proof {
            assert(self.hist.corr_p@ =~= old(self).hist.corr_p@.subrange(
                1,
                CORR_HIST_LEN as int,
            ).push(ip));
        }
    }
}

} // verus!
