//! The broadcast ephemeris of one satellite, accumulated from LNAV
//! subframes 1, 2 and 3.
//!
//! Every orbital and clock field keeps the raw transmitted integer; the
//! IS-GPS-200 scale factors (powers of two, some times pi) are applied by
//! consumers when a floating-point value is wanted.  Times whose scale
//! factor is an integer (TOW in units of 6 s, TOC and TOE in units of 16 s)
//! are stored already multiplied out, in whole seconds.

use vstd::prelude::*;
use crate::bits::{
    getbits, getbits2, getbitu, getbitu2, lemma_getbits_bound, lemma_getbitu_bound,
    lemma_pow2_values, spec_getbits, spec_getbitu,
};

verus! {

pub struct Ephemeris {
    pub prn: u8,
    /// Telemetry word payload.
    pub tlm: u32,
    /// Time of week at the start of the next subframe, seconds.
    pub tow: u32,
    /// Full week number (10 transmitted bits plus the current rollover).
    pub week: u32,
    pub code_on_l2: u8,
    /// URA index.
    pub sva: u8,
    pub svh: u8,
    pub iodc: u32,
    pub flag_l2p: u8,
    /// Group delay, raw signed 8 bits (scale 2^-31 s).
    pub tgd: i32,
    /// Clock reference time, seconds.
    pub toc: u32,
    /// Clock drift rate, raw signed 8 bits (scale 2^-55).
    pub af2: i32,
    /// Clock drift, raw signed 16 bits (scale 2^-43).
    pub af1: i32,
    /// Clock bias, raw signed 22 bits (scale 2^-31 s).
    pub af0: i32,
    pub iode: u32,
    /// Orbit radius sine correction, raw signed 16 bits (scale 2^-5 m).
    pub crs: i32,
    /// Mean motion difference, raw signed 16 bits (scale 2^-43 semicircle/s).
    pub deltan: i32,
    /// Mean anomaly, raw signed 32 bits (scale 2^-31 semicircle).
    pub m0: i32,
    /// Latitude cosine correction, raw signed 16 bits (scale 2^-29 rad).
    pub cuc: i32,
    /// Eccentricity, raw unsigned 32 bits (scale 2^-33).
    pub e: u32,
    /// Latitude sine correction, raw signed 16 bits (scale 2^-29 rad).
    pub cus: i32,
    /// Square root of the semi-major axis, raw unsigned 32 bits (scale 2^-19).
    pub sqrta: u32,
    /// Ephemeris reference time, seconds.
    pub toes: u32,
    /// Fit interval flag.
    pub fit: u32,
    /// Inclination cosine correction, raw signed 16 bits (scale 2^-29 rad).
    pub cic: i32,
    /// Right ascension, raw signed 32 bits (scale 2^-31 semicircle).
    pub omg0: i32,
    /// Inclination sine correction, raw signed 16 bits (scale 2^-29 rad).
    pub cis: i32,
    /// Inclination, raw signed 32 bits (scale 2^-31 semicircle).
    pub i0: i32,
    /// Orbit radius cosine correction, raw signed 16 bits (scale 2^-5 m).
    pub crc: i32,
    /// Argument of perigee, raw signed 32 bits (scale 2^-31 semicircle).
    pub omg: i32,
    /// Rate of right ascension, raw signed 24 bits (scale 2^-43 semicircle/s).
    pub omgd: i32,
    pub iode_sf3: u32,
    /// Inclination rate, raw signed 14 bits (scale 2^-43 semicircle/s).
    pub idot: i32,
    pub got_sf1: bool,
    pub got_sf2: bool,
    pub got_sf3: bool,
    /// TOW, TOE and TOC as whole GPST seconds once the week is known.
    pub tow_gpst_sec: u64,
    pub toe_gpst_sec: u64,
    pub toc_gpst_sec: u64,
    /// Channel time of the last decoded subframe, in code periods (ms).
    pub ts_msec: usize,
}

impl Ephemeris {
    pub fn new(prn: u8) -> (e: Ephemeris)
        ensures
            e == Ephemeris::spec_new(prn),
    {
        Ephemeris {
            prn,
            tlm: 0,
            tow: 0,
            week: 0,
            code_on_l2: 0,
            sva: 0,
            svh: 0,
            iodc: 0,
            flag_l2p: 0,
            tgd: 0,
            toc: 0,
            af2: 0,
            af1: 0,
            af0: 0,
            iode: 0,
            crs: 0,
            deltan: 0,
            m0: 0,
            cuc: 0,
            e: 0,
            cus: 0,
            sqrta: 0,
            toes: 0,
            fit: 0,
            cic: 0,
            omg0: 0,
            cis: 0,
            i0: 0,
            crc: 0,
            omg: 0,
            omgd: 0,
            iode_sf3: 0,
            idot: 0,
            got_sf1: false,
            got_sf2: false,
            got_sf3: false,
            tow_gpst_sec: 0,
            toe_gpst_sec: 0,
            toc_gpst_sec: 0,
            ts_msec: 0,
        }
    }

    /// A fresh record for one satellite: every field zero but the PRN.
    pub open spec fn spec_new(prn: u8) -> Ephemeris {
        Ephemeris {
            prn,
            tlm: 0,
            tow: 0,
            week: 0,
            code_on_l2: 0,
            sva: 0,
            svh: 0,
            iodc: 0,
            flag_l2p: 0,
            tgd: 0,
            toc: 0,
            af2: 0,
            af1: 0,
            af0: 0,
            iode: 0,
            crs: 0,
            deltan: 0,
            m0: 0,
            cuc: 0,
            e: 0,
            cus: 0,
            sqrta: 0,
            toes: 0,
            fit: 0,
            cic: 0,
            omg0: 0,
            cis: 0,
            i0: 0,
            crc: 0,
            omg: 0,
            omgd: 0,
            iode_sf3: 0,
            idot: 0,
            got_sf1: false,
            got_sf2: false,
            got_sf3: false,
            tow_gpst_sec: 0,
            toe_gpst_sec: 0,
            toc_gpst_sec: 0,
            ts_msec: 0,
        }
    }

    /// The record is complete when subframes 1, 2 and 3 have arrived under
    /// one issue of data: both IODE fields agree and match the low eight
    /// bits of the IODC.
    pub open spec fn spec_complete(self) -> bool {
        self.got_sf1 && self.got_sf2 && self.got_sf3 && self.iode == self.iode_sf3 && (self.iodc
            & 0xff) == self.iode
    }

    pub fn is_complete(&self) -> (r: bool)
        ensures
            r == self.spec_complete(),
    {
        self.got_sf1 && self.got_sf2 && self.got_sf3 && self.iode == self.iode_sf3 && (self.iodc
            & 0xff) == self.iode
    }

    /// What decoding subframe 1 from buffer `b` does to a record.
    pub open spec fn spec_sf1(e0: Ephemeris, b: Seq<u8>) -> Ephemeris {
        Ephemeris {
            tow: (spec_getbitu(b, 30, 17) * 6) as u32,
            week: (spec_getbitu(b, 60, 10) + 2048) as u32,
            code_on_l2: spec_getbitu(b, 70, 2) as u8,
            sva: spec_getbitu(b, 72, 4) as u8,
            svh: spec_getbitu(b, 76, 6) as u8,
            iodc: (spec_getbitu(b, 82, 2) * 0x100 + spec_getbitu(b, 210, 8)) as u32,
            flag_l2p: spec_getbitu(b, 90, 1) as u8,
            tgd: spec_getbits(b, 196, 8) as i32,
            toc: (spec_getbitu(b, 218, 16) * 16) as u32,
            af2: spec_getbits(b, 240, 8) as i32,
            af1: spec_getbits(b, 248, 16) as i32,
            af0: spec_getbits(b, 270, 22) as i32,
            got_sf1: true,
            ..e0
        }
    }

    /// What decoding subframe 2 from buffer `b` does to a record.
    pub open spec fn spec_sf2(e0: Ephemeris, b: Seq<u8>) -> Ephemeris {
        Ephemeris {
            tow: (spec_getbitu(b, 30, 17) * 6) as u32,
            iode: spec_getbitu(b, 60, 8) as u32,
            crs: spec_getbits(b, 68, 16) as i32,
            deltan: spec_getbits(b, 90, 16) as i32,
            m0: (spec_getbits(b, 106, 8) * 0x100_0000 + spec_getbitu(b, 120, 24)) as i32,
            cuc: spec_getbits(b, 150, 16) as i32,
            e: (spec_getbitu(b, 166, 8) * 0x100_0000 + spec_getbitu(b, 180, 24)) as u32,
            cus: spec_getbits(b, 210, 16) as i32,
            sqrta: (spec_getbitu(b, 226, 8) * 0x100_0000 + spec_getbitu(b, 240, 24)) as u32,
            toes: (spec_getbitu(b, 270, 16) * 16) as u32,
            fit: spec_getbitu(b, 286, 1) as u32,
            got_sf2: true,
            ..e0
        }
    }

    /// What decoding subframe 3 from buffer `b` does to a record.
    pub open spec fn spec_sf3(e0: Ephemeris, b: Seq<u8>) -> Ephemeris {
        Ephemeris {
            tow: (spec_getbitu(b, 30, 17) * 6) as u32,
            cic: spec_getbits(b, 60, 16) as i32,
            omg0: (spec_getbits(b, 76, 8) * 0x100_0000 + spec_getbitu(b, 90, 24)) as i32,
            cis: spec_getbits(b, 120, 16) as i32,
            i0: (spec_getbits(b, 136, 8) * 0x100_0000 + spec_getbitu(b, 150, 24)) as i32,
            crc: spec_getbits(b, 180, 16) as i32,
            omg: (spec_getbits(b, 196, 8) * 0x100_0000 + spec_getbitu(b, 210, 24)) as i32,
            omgd: spec_getbits(b, 240, 24) as i32,
            iode_sf3: spec_getbitu(b, 270, 8) as u32,
            idot: spec_getbits(b, 278, 14) as i32,
            got_sf3: true,
            ..e0
        }
    }

    /// Decodes subframe 1: week number, satellite health and accuracy, and
    /// the clock model.
    pub fn nav_decode_lnav_subframe1(&mut self, buf: &[u8])
        requires
            300 <= buf@.len() * 8 <= usize::MAX,
        ensures
            *final(self) == Ephemeris::spec_sf1(*old(self), buf@),
            *final(self) == (Ephemeris {
                tow: (spec_getbitu(buf@, 30, 17) * 6) as u32,
                week: (spec_getbitu(buf@, 60, 10) + 2048) as u32,
                code_on_l2: spec_getbitu(buf@, 70, 2) as u8,
                sva: spec_getbitu(buf@, 72, 4) as u8,
                svh: spec_getbitu(buf@, 76, 6) as u8,
                iodc: (spec_getbitu(buf@, 82, 2) * 0x100 + spec_getbitu(buf@, 210, 8)) as u32,
                flag_l2p: spec_getbitu(buf@, 90, 1) as u8,
                tgd: spec_getbits(buf@, 196, 8) as i32,
                toc: (spec_getbitu(buf@, 218, 16) * 16) as u32,
                af2: spec_getbits(buf@, 240, 8) as i32,
                af1: spec_getbits(buf@, 248, 16) as i32,
                af0: spec_getbits(buf@, 270, 22) as i32,
                got_sf1: true,
                ..*old(self)
            }),
    {
        proof {
            lemma_pow2_values();
            lemma_getbitu_bound(buf@, 30, 17);
            lemma_getbitu_bound(buf@, 60, 10);
            lemma_getbitu_bound(buf@, 70, 2);
            lemma_getbitu_bound(buf@, 72, 4);
            lemma_getbitu_bound(buf@, 76, 6);
            lemma_getbitu_bound(buf@, 90, 1);
            lemma_getbitu_bound(buf@, 218, 16);
        }
        self.tow = getbitu(buf, 30, 17) * 6;
        self.week = getbitu(buf, 60, 10) + 2048;
        self.code_on_l2 = getbitu(buf, 70, 2) as u8;
        self.sva = getbitu(buf, 72, 4) as u8;
        self.svh = getbitu(buf, 76, 6) as u8;
        self.iodc = getbitu2(buf, 82, 2, 210, 8);
        self.flag_l2p = getbitu(buf, 90, 1) as u8;
        self.tgd = getbits(buf, 196, 8);
        self.toc = getbitu(buf, 218, 16) * 16;
        self.af2 = getbits(buf, 240, 8);
        self.af1 = getbits(buf, 248, 16);
        self.af0 = getbits(buf, 270, 22);
        self.got_sf1 = true;
    }

    /// Decodes subframe 2: the first half of the orbit model.
    pub fn nav_decode_lnav_subframe2(&mut self, buf: &[u8])
        requires
            300 <= buf@.len() * 8 <= usize::MAX,
        ensures
            *final(self) == Ephemeris::spec_sf2(*old(self), buf@),
            *final(self) == (Ephemeris {
                tow: (spec_getbitu(buf@, 30, 17) * 6) as u32,
                iode: spec_getbitu(buf@, 60, 8) as u32,
                crs: spec_getbits(buf@, 68, 16) as i32,
                deltan: spec_getbits(buf@, 90, 16) as i32,
                m0: (spec_getbits(buf@, 106, 8) * 0x100_0000 + spec_getbitu(buf@, 120, 24)) as i32,
                cuc: spec_getbits(buf@, 150, 16) as i32,
                e: (spec_getbitu(buf@, 166, 8) * 0x100_0000 + spec_getbitu(buf@, 180, 24)) as u32,
                cus: spec_getbits(buf@, 210, 16) as i32,
                sqrta: (spec_getbitu(buf@, 226, 8) * 0x100_0000 + spec_getbitu(
                    buf@,
                    240,
                    24,
                )) as u32,
                toes: (spec_getbitu(buf@, 270, 16) * 16) as u32,
                fit: spec_getbitu(buf@, 286, 1) as u32,
                got_sf2: true,
                ..*old(self)
            }),
    {
        proof {
            lemma_pow2_values();
            lemma_getbitu_bound(buf@, 30, 17);
            lemma_getbitu_bound(buf@, 270, 16);
            lemma_getbits_bound(buf@, 106, 8);
            lemma_getbitu_bound(buf@, 120, 24);
        }
        self.tow = getbitu(buf, 30, 17) * 6;
        self.iode = getbitu(buf, 60, 8);
        self.crs = getbits(buf, 68, 16);
        self.deltan = getbits(buf, 90, 16);
        let m0 = getbits2(buf, 106, 8, 120, 24);
        self.m0 = m0 as i32;
        self.cuc = getbits(buf, 150, 16);
        self.e = getbitu2(buf, 166, 8, 180, 24);
        self.cus = getbits(buf, 210, 16);
        self.sqrta = getbitu2(buf, 226, 8, 240, 24);
        self.toes = getbitu(buf, 270, 16) * 16;
        self.fit = getbitu(buf, 286, 1);
        self.got_sf2 = true;
    }

    /// Decodes subframe 3: the second half of the orbit model.
    pub fn nav_decode_lnav_subframe3(&mut self, buf: &[u8])
        requires
            300 <= buf@.len() * 8 <= usize::MAX,
        ensures
            *final(self) == Ephemeris::spec_sf3(*old(self), buf@),
            *final(self) == (Ephemeris {
                tow: (spec_getbitu(buf@, 30, 17) * 6) as u32,
                cic: spec_getbits(buf@, 60, 16) as i32,
                omg0: (spec_getbits(buf@, 76, 8) * 0x100_0000 + spec_getbitu(
                    buf@,
                    90,
                    24,
                )) as i32,
                cis: spec_getbits(buf@, 120, 16) as i32,
                i0: (spec_getbits(buf@, 136, 8) * 0x100_0000 + spec_getbitu(buf@, 150, 24)) as i32,
                crc: spec_getbits(buf@, 180, 16) as i32,
                omg: (spec_getbits(buf@, 196, 8) * 0x100_0000 + spec_getbitu(
                    buf@,
                    210,
                    24,
                )) as i32,
                omgd: spec_getbits(buf@, 240, 24) as i32,
                iode_sf3: spec_getbitu(buf@, 270, 8) as u32,
                idot: spec_getbits(buf@, 278, 14) as i32,
                got_sf3: true,
                ..*old(self)
            }),
    {
        proof {
            lemma_pow2_values();
            lemma_getbitu_bound(buf@, 30, 17);
            lemma_getbits_bound(buf@, 76, 8);
            lemma_getbitu_bound(buf@, 90, 24);
            lemma_getbits_bound(buf@, 136, 8);
            lemma_getbitu_bound(buf@, 150, 24);
            lemma_getbits_bound(buf@, 196, 8);
            lemma_getbitu_bound(buf@, 210, 24);
        }
        self.tow = getbitu(buf, 30, 17) * 6;
        self.cic = getbits(buf, 60, 16);
        let omg0 = getbits2(buf, 76, 8, 90, 24);
        self.omg0 = omg0 as i32;
        self.cis = getbits(buf, 120, 16);
        let i0 = getbits2(buf, 136, 8, 150, 24);
        self.i0 = i0 as i32;
        self.crc = getbits(buf, 180, 16);
        let omg = getbits2(buf, 196, 8, 210, 24);
        self.omg = omg as i32;
        self.omgd = getbits(buf, 240, 24);
        self.iode_sf3 = getbitu(buf, 270, 8);
        self.idot = getbits(buf, 278, 14);
        self.got_sf3 = true;
    }
}

} // verus!
