//! The almanac slot of one satellite, filled from LNAV subframes 4 and 5.
//!
//! As with the ephemeris, every field keeps the raw transmitted integer;
//! only TOA, whose scale factor is the integer 4096, is stored in whole
//! seconds.

use vstd::prelude::*;
use crate::bits::{
    getbits, getbits2, getbitu, getbitu2, lemma_getbits_bound, lemma_getbitu_bound,
    lemma_pow2_values, spec_getbits, spec_getbitu,
};

verus! {

#[derive(Clone, Copy, Debug, PartialEq, Eq, Structural)]
pub struct Almanac {
    /// SV configuration code (subframe 4 page 25).
    pub svconf: u32,
    /// Satellite health bits.
    pub svh: u32,
    /// Full week number of the almanac reference time.
    pub week: u32,
    /// Almanac reference time shared by the whole table, seconds.
    pub toas: u32,
    /// Eccentricity, raw unsigned 16 bits (scale 2^-21).
    pub e: u32,
    /// Reference time of this slot, seconds.
    pub toa: u32,
    /// Inclination offset, raw signed 16 bits (scale 2^-19 semicircle).
    pub deltai: i32,
    /// Rate of right ascension, raw signed 16 bits (scale 2^-38 semicircle/s).
    pub omgd: i32,
    /// Square root of the semi-major axis, raw unsigned 24 bits (scale 2^-11).
    pub sqrta: u32,
    /// Right ascension, raw signed 24 bits (scale 2^-23 semicircle).
    pub omg0: i32,
    /// Argument of perigee, raw signed 24 bits (scale 2^-23 semicircle).
    pub omg: i32,
    /// Mean anomaly, raw signed 24 bits (scale 2^-23 semicircle).
    pub m0: i32,
    /// Clock bias, raw signed 11 bits (scale 2^-20 s).
    pub af0: i32,
    /// Clock drift, raw signed 11 bits (scale 2^-38 s/s).
    pub af1: i32,
}

impl Almanac {
    /// An empty slot: every field zero.
    pub open spec fn spec_empty() -> Almanac {
        Almanac {
            svconf: 0,
            svh: 0,
            week: 0,
            toas: 0,
            e: 0,
            toa: 0,
            deltai: 0,
            omgd: 0,
            sqrta: 0,
            omg0: 0,
            omg: 0,
            m0: 0,
            af0: 0,
            af1: 0,
        }
    }

    pub fn empty() -> (a: Almanac)
        ensures
            a == Almanac::spec_empty(),
    {
        Almanac {
            svconf: 0,
            svh: 0,
            week: 0,
            toas: 0,
            e: 0,
            toa: 0,
            deltai: 0,
            omgd: 0,
            sqrta: 0,
            omg0: 0,
            omg: 0,
            m0: 0,
            af0: 0,
            af1: 0,
        }
    }

    /// What decoding one almanac page from buffer `b` does to a slot.
    pub open spec fn spec_alm_decoded(a0: Almanac, b: Seq<u8>) -> Almanac {
        Almanac {
            e: spec_getbitu(b, 68, 16) as u32,
            toa: (spec_getbitu(b, 90, 8) * 4096) as u32,
            deltai: spec_getbits(b, 98, 16) as i32,
            omgd: spec_getbits(b, 120, 16) as i32,
            svh: spec_getbitu(b, 136, 8) as u32,
            sqrta: spec_getbitu(b, 150, 24) as u32,
            omg0: spec_getbits(b, 180, 24) as i32,
            omg: spec_getbits(b, 210, 24) as i32,
            m0: spec_getbits(b, 240, 24) as i32,
            af0: (spec_getbits(b, 270, 8) * 0x8 + spec_getbitu(b, 289, 3)) as i32,
            af1: spec_getbits(b, 278, 11) as i32,
            ..a0
        }
    }

    /// Decodes one almanac page (subframe 5 pages 1-24 and subframe 4
    /// pages for PRN 25-32 share this layout).
    pub fn nav_decode_alm(&mut self, buf: &[u8])
        requires
            300 <= buf@.len() * 8 <= usize::MAX,
        ensures
            *final(self) == Almanac::spec_alm_decoded(*old(self), buf@),
            *final(self) == (Almanac {
                e: spec_getbitu(buf@, 68, 16) as u32,
                toa: (spec_getbitu(buf@, 90, 8) * 4096) as u32,
                deltai: spec_getbits(buf@, 98, 16) as i32,
                omgd: spec_getbits(buf@, 120, 16) as i32,
                svh: spec_getbitu(buf@, 136, 8) as u32,
                sqrta: spec_getbitu(buf@, 150, 24) as u32,
                omg0: spec_getbits(buf@, 180, 24) as i32,
                omg: spec_getbits(buf@, 210, 24) as i32,
                m0: spec_getbits(buf@, 240, 24) as i32,
                af0: (spec_getbits(buf@, 270, 8) * 0x8 + spec_getbitu(buf@, 289, 3)) as i32,
                af1: spec_getbits(buf@, 278, 11) as i32,
                ..*old(self)
            }),
    {
        proof {
            lemma_pow2_values();
            lemma_getbitu_bound(buf@, 68, 16);
            lemma_getbitu_bound(buf@, 90, 8);
            lemma_getbitu_bound(buf@, 136, 8);
            lemma_getbitu_bound(buf@, 150, 24);
            lemma_getbits_bound(buf@, 270, 8);
            lemma_getbitu_bound(buf@, 289, 3);
        }
        self.e = getbitu(buf, 68, 16);
        self.toa = getbitu(buf, 90, 8) * 4096;
        self.deltai = getbits(buf, 98, 16);
        self.omgd = getbits(buf, 120, 16);
        self.svh = getbitu(buf, 136, 8);
        self.sqrta = getbitu(buf, 150, 24);
        self.omg0 = getbits(buf, 180, 24);
        self.omg = getbits(buf, 210, 24);
        self.m0 = getbits(buf, 240, 24);
        let af0 = getbits2(buf, 270, 8, 289, 3);
        self.af0 = af0 as i32;
        self.af1 = getbits(buf, 278, 11);
    }
}

} // verus!
