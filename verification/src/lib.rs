//! Core of a software-defined GPS L1 C/A receiver: PRN (Gold) code
//! generation, navigation bit and frame synchronization, LNAV word parity
//! checking, subframe decoding into ephemeris and almanac records, and the
//! published receiver state.
//!
//! Everything here is integer logic with contracts checked by Verus.  The
//! floating-point signal path (FFT correlation, acquisition search, tracking
//! loops) lives outside the library and hands plain values in: the prompt
//! correlator output arrives as a fixed-point normalized in-phase value, and
//! epochs are carried as whole GPST seconds.

pub mod almanac;
pub mod bits;
pub mod channel;
pub mod code;
pub mod constants;
pub mod ephemeris;
pub mod navigation;
pub mod recording;
pub mod state;
pub mod util;
