//! The published receiver state: what external consumers may read.
//!
//! One writer (the receiver) updates it between code periods; the almanac
//! table and the channel table are fixed 32-slot vectors indexed by PRN.
//! The update callback of the interface lives outside the library; the
//! state counts publications instead, and the caller fires its callback
//! when the count moves.

use vstd::prelude::*;
use crate::almanac::Almanac;
use crate::channel::State;

verus! {

/// Published per-channel telemetry.  The analog quantities are fixed
/// point: `cn0` in milli-dB-Hz, `doppler_hz` in milli-Hz, `code_idx` in
/// milli-samples, `phi` in milli-radians.
#[derive(Clone, Copy, Debug, PartialEq, Eq, Structural)]
pub struct ChannelState {
    pub state: State,
    pub cn0: i64,
    pub doppler_hz: i64,
    pub code_idx: i64,
    pub phi: i64,
    pub has_eph: bool,
    /// Consecutive acquisition rounds that missed this satellite.
    pub acq_miss: u8,
}

impl ChannelState {
    /// A fresh channel entry: acquisition state, all telemetry zero.
    pub open spec fn spec_default() -> ChannelState {
        ChannelState {
            state: State::Acquisition,
            cn0: 0,
            doppler_hz: 0,
            code_idx: 0,
            phi: 0,
            has_eph: false,
            acq_miss: 0,
        }
    }
}

impl Default for ChannelState {
    fn default() -> (r: ChannelState)
        ensures
            r == ChannelState::spec_default(),
    {
        ChannelState {
            state: State::Acquisition,
            cn0: 0,
            doppler_hz: 0,
            code_idx: 0,
            phi: 0,
            has_eph: false,
            acq_miss: 0,
        }
    }
}

/// What one acquisition round does to one channel slot.  A satellite seen
/// this round keeps (or gets) a channel with its miss count cleared; one
/// missed for the first time stays with the miss recorded; one missed a
/// second consecutive time is dropped.
pub open spec fn spec_round_slot(slot: Option<ChannelState>, present: bool) -> Option<
    ChannelState,
> {
    if present {
        match slot {
            Some(cs) => Some(ChannelState { acq_miss: 0, ..cs }),
            None => Some(ChannelState::spec_default()),
        }
    } else {
        match slot {
            Some(cs) => if cs.acq_miss == 0 {
                Some(ChannelState { acq_miss: 1, ..cs })
            } else {
                None
            },
            None => None,
        }
    }
}

pub struct GnssState {
    /// Last published time of week, whole GPST seconds.
    pub tow_gpst_sec: u64,
    /// One almanac slot per PRN 1 through 32, at index PRN - 1.
    pub almanac: Vec<Almanac>,
    pub utc_adj: bool,
    pub ion_adj: bool,
    /// One channel slot per PRN 1 through 32, at index PRN - 1.
    pub channels: Vec<Option<ChannelState>>,
    /// How many times the state has been published.
    pub updates: u64,
}

impl GnssState {
    pub open spec fn wf(self) -> bool {
        self.almanac@.len() == 32 && self.channels@.len() == 32
    }

    /// A channel for this PRN is published.
    pub open spec fn spec_has_channel(self, prn: u8) -> bool {
        1 <= prn <= 32 && self.channels@[prn - 1].is_some()
    }

    pub fn new() -> (s: GnssState)
        ensures
            s.wf(),
            s.tow_gpst_sec == 0,
            s.utc_adj == false,
            s.ion_adj == false,
            s.updates == 0,
            forall|i: int| 0 <= i < 32 ==> s.almanac@[i] == Almanac::spec_empty(),
            forall|i: int| 0 <= i < 32 ==> s.channels@[i] is None,
    {
        let mut almanac: Vec<Almanac> = Vec::new();
        let mut channels: Vec<Option<ChannelState>> = Vec::new();
        let mut i: usize = 0;
        while i < 32
            invariant
                i <= 32,
                almanac@.len() == i,
                channels@.len() == i,
                forall|k: int| 0 <= k < i ==> almanac@[k] == Almanac::spec_empty(),
                forall|k: int| 0 <= k < i ==> channels@[k] is None,
            decreases 32 - i,
        {
            almanac.push(Almanac::empty());
            channels.push(None);
            i += 1;
        }
        GnssState {
            tow_gpst_sec: 0,
            almanac,
            utc_adj: false,
            ion_adj: false,
            channels,
            updates: 0,
        }
    }

    pub fn has_channel(&self, prn: u8) -> (r: bool)
        requires
            self.wf(),
        ensures
            r == self.spec_has_channel(prn),
    {
        1 <= prn && prn <= 32 && self.channels[(prn - 1) as usize].is_some()
    }

    /// Applies the outcome of one acquisition round: `present` lists the
    /// PRNs whose search passed the detection threshold this round.
    pub fn apply_acquisition_round(&mut self, present: &Vec<u8>)
        requires
            old(self).wf(),
        ensures
            final(self).wf(),
            final(self).tow_gpst_sec == old(self).tow_gpst_sec,
            final(self).almanac == old(self).almanac,
            final(self).utc_adj == old(self).utc_adj,
            final(self).ion_adj == old(self).ion_adj,
            final(self).updates == old(self).updates,
            forall|p: int|
                0 <= p < 32 ==> final(self).channels@[p] == spec_round_slot(
                    old(self).channels@[p],
                    present@.contains((p + 1) as u8),
                ),
    {
        let mut prn: u8 = 1;
        while prn <= 32
            invariant
                1 <= prn <= 33,
                self.wf(),
                self.tow_gpst_sec == old(self).tow_gpst_sec,
                self.almanac == old(self).almanac,
                self.utc_adj == old(self).utc_adj,
                self.ion_adj == old(self).ion_adj,
                self.updates == old(self).updates,
                forall|p: int|
                    0 <= p < prn - 1 ==> self.channels@[p] == spec_round_slot(
                        old(self).channels@[p],
                        present@.contains((p + 1) as u8),
                    ),
                forall|p: int| prn - 1 <= p < 32 ==> self.channels@[p] == old(self).channels@[p],
            decreases 33 - prn,
        {
            let idx = (prn - 1) as usize;
            let pres = contains_u8(present, prn);
            let slot = self.channels[idx];
            let next: Option<ChannelState> = if pres {
                match slot {
                    Some(cs) => Some(
                        ChannelState {
                            state: cs.state,
                            cn0: cs.cn0,
                            doppler_hz: cs.doppler_hz,
                            code_idx: cs.code_idx,
                            phi: cs.phi,
                            has_eph: cs.has_eph,
                            acq_miss: 0,
                        },
                    ),
                    None => Some(ChannelState::default()),
                }
            } else {
                match slot {
                    Some(cs) => if cs.acq_miss == 0 {
                        Some(
                            ChannelState {
                                state: cs.state,
                                cn0: cs.cn0,
                                doppler_hz: cs.doppler_hz,
                                code_idx: cs.code_idx,
                                phi: cs.phi,
                                has_eph: cs.has_eph,
                                acq_miss: 1,
                            },
                        )
                    } else {
                        None
                    },
                    None => None,
                }
            };
            self.channels.set(idx, next);
            prn += 1;
        }
    }
}

/// Linear membership test on a PRN list.
pub fn contains_u8(v: &Vec<u8>, x: u8) -> (r: bool)
    ensures
        r == v@.contains(x),
{
    let mut i: usize = 0;
    while i < v.len()
        invariant
            i <= v@.len(),
            forall|k: int| 0 <= k < i ==> v@[k] != x,
        decreases v@.len() - i,
    {
        if v[i] == x {
            return true;
        }
        i += 1;
    }
    proof {
        assert(!v@.contains(x));
    }
    false
}

/// If two consecutive acquisition rounds both miss a satellite, no channel
/// for it remains in the published state, whatever else the rounds saw.
pub proof fn lemma_two_missed_rounds_drop_channel(
    s0: GnssState,
    s1: GnssState,
    s2: GnssState,
    r1: Seq<u8>,
    r2: Seq<u8>,
    prn: u8,
)
    requires
        1 <= prn <= 32,
        forall|p: int|
            0 <= p < 32 ==> s1.channels@[p] == spec_round_slot(
                s0.channels@[p],
                r1.contains((p + 1) as u8),
            ),
        forall|p: int|
            0 <= p < 32 ==> s2.channels@[p] == spec_round_slot(
                s1.channels@[p],
                r2.contains((p + 1) as u8),
            ),
        !r1.contains(prn),
        !r2.contains(prn),
    ensures
        !s2.spec_has_channel(prn),
{
    let p = prn - 1;
    assert(s1.channels@[p] == spec_round_slot(s0.channels@[p], r1.contains((p + 1) as u8)));
    assert(s2.channels@[p] == spec_round_slot(s1.channels@[p], r2.contains((p + 1) as u8)));
    assert((p + 1) as u8 == prn);
}

} // verus!
