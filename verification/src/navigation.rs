//! Navigation decoding: bit synchronization, frame synchronization and the
//! LNAV word parity check.
//!
//! Symbols arrive as normalized prompt correlator values in fixed point
//! (units of `IP_SCALE`).  Thresholds that the interface states as real
//! numbers (0.4 for synchronization, 0.03 for loss) are compared exactly on
//! the scaled integer sums.

use vstd::prelude::*;
use vstd::slice::slice_subrange;
use crate::almanac::Almanac;
use crate::bits::{
    getbitu, lemma_getbitu_frame, lemma_getbitu_to_bits, lemma_pow2_values, nth_bit, setbitu,
    spec_getbitu, spec_parity, xor_bits,
};
use crate::channel::{Channel, Sv};
use crate::constants::{CORR_HIST_LEN, IP_SCALE, SDR_MAX_NSYM, SECS_PER_WEEK};
use crate::ephemeris::Ephemeris;
use crate::state::{ChannelState, GnssState};

verus! {

/// Polarity of a synchronized frame relative to the preamble.
#[derive(Clone, Copy, Debug, PartialEq, Eq, Structural)]
pub enum SyncState {
    Normal,
    Reversed,
    NoSync,
}

/// Per-channel navigation state.
pub struct Navigation {
    /// Channel time at which a navigation bit begins; 0 while unsynchronized.
    pub bit_sync: usize,
    /// Channel time of the last confirmed frame boundary; 0 while none.
    pub nav_sync: usize,
    pub sync_state: SyncState,
    /// The last `SDR_MAX_NSYM` demodulated symbols (0 or 1), newest last.
    pub bits: Vec<u8>,
    pub count_parity_err: usize,
    pub eph: Ephemeris,
}

impl Navigation {
    /// Well-formed relative to the channel clock `nts`.
    pub open spec fn wf(self, nts: int) -> bool {
        &&& self.bits@.len() == SDR_MAX_NSYM
        &&& (forall|i: int| 0 <= i < SDR_MAX_NSYM ==> #[trigger] self.bits@[i] <= 1)
        &&& self.bit_sync <= nts
        &&& self.nav_sync <= nts
        &&& (self.nav_sync > 0 ==> self.sync_state != SyncState::NoSync)
    }

    /// A fresh navigation state for one satellite: no synchronization, an
    /// all-zero symbol FIFO, no parity errors, an empty ephemeris.
    pub open spec fn spec_is_new(n: Navigation, sv: Sv) -> bool {
        &&& n.bit_sync == 0
        &&& n.nav_sync == 0
        &&& n.sync_state == SyncState::Normal
        &&& n.bits@ == Seq::new(SDR_MAX_NSYM as nat, |i: int| 0u8)
        &&& n.count_parity_err == 0
        &&& n.eph == Ephemeris::spec_new(sv.prn)
    }

    pub fn new(sv: Sv) -> (n: Navigation)
        ensures
            Navigation::spec_is_new(n, sv),
    {
        let mut bits: Vec<u8> = Vec::new();
        let mut i: usize = 0;
        while i < SDR_MAX_NSYM
            invariant
                i <= SDR_MAX_NSYM,
                bits@.len() == i,
                forall|k: int| 0 <= k < i ==> bits@[k] == 0,
            decreases SDR_MAX_NSYM - i,
        {
            bits.push(0);
            i += 1;
        }
        proof {
            assert(bits@ =~= Seq::new(SDR_MAX_NSYM as nat, |i: int| 0u8));
        }
        Navigation {
            bit_sync: 0,
            nav_sync: 0,
            sync_state: SyncState::Normal,
            bits,
            count_parity_err: 0,
            eph: Ephemeris::new(sv.prn),
        }
    }

    /// Forgets all synchronization and clears the symbol FIFO; the decoded
    /// ephemeris and the parity error count stay.
    pub fn init(&mut self)
        requires
            old(self).bits@.len() == SDR_MAX_NSYM,
        ensures
            final(self).bit_sync == 0,
            final(self).nav_sync == 0,
            final(self).sync_state == SyncState::Normal,
            final(self).bits@.len() == SDR_MAX_NSYM,
            forall|i: int| 0 <= i < SDR_MAX_NSYM ==> final(self).bits@[i] == 0,
            final(self).count_parity_err == old(self).count_parity_err,
            final(self).eph == old(self).eph,
    {
        self.bit_sync = 0;
        self.nav_sync = 0;
        self.sync_state = SyncState::Normal;
        let n = self.bits.len();
        let mut i: usize = 0;
        while i < n
            invariant
                i <= n,
                self.bits@.len() == n,
                forall|k: int| 0 <= k < i ==> self.bits@[k] == 0,
                self.bit_sync == 0,
                self.nav_sync == 0,
                self.sync_state == SyncState::Normal,
                self.count_parity_err == old(self).count_parity_err,
                self.eph == old(self).eph,
                self.bits@.len() == SDR_MAX_NSYM,
            decreases n - i,
        {
            self.bits.set(i, 0);
            i += 1;
        }
    }
}

/// The absolute value.
pub open spec fn spec_abs(x: int) -> int {
    if x < 0 {
        -x
    } else {
        x
    }
}

/// The sum of the last `n` entries of a correlator history.
pub open spec fn ip_sum(h: Seq<i32>, n: int) -> int
    decreases n,
{
    if n <= 0 {
        0
    } else {
        h[h.len() - n] + ip_sum(h, n - 1)
    }
}

/// The sum of the absolute values of the last `n` entries.
pub open spec fn ip_abs_sum(h: Seq<i32>, n: int) -> int
    decreases n,
{
    if n <= 0 {
        0
    } else {
        spec_abs(h[h.len() - n] as int) + ip_abs_sum(h, n - 1)
    }
}

/// How many symbols the bit-sync search looks at on each side of the
/// candidate edge: one less than the channel time, capped at one bit
/// period.
pub open spec fn spec_sync_n(nts: int, num: int) -> int {
    if nts - 1 <= num {
        nts - 1
    } else {
        num
    }
}

/// The bit-edge test over the last `2n` symbols: the first `n` weighted -1
/// and the last `n` weighted +1 must dominate the total magnitude, and the
/// mean magnitude must reach the threshold of two fifths.
pub open spec fn spec_bitsync_cond(h: Seq<i32>, n: int) -> bool {
    let p2 = 2 * ip_sum(h, n) - ip_sum(h, 2 * n);
    let r2 = ip_abs_sum(h, 2 * n);
    spec_abs(p2) >= r2 && 5 * r2 >= 4 * n * (IP_SCALE as int)
}

/// A symbol is accepted when the mean magnitude of its `num` correlator
/// values reaches three hundredths.
pub open spec fn spec_symbol_ok(h: Seq<i32>, num: int) -> bool {
    100 * spec_abs(ip_sum(h, num)) >= 3 * num * (IP_SCALE as int)
}

/// The emitted symbol: 1 for a non-negative mean, else 0.
pub open spec fn spec_symbol_bit(h: Seq<i32>, num: int) -> u8 {
    if ip_sum(h, num) >= 0 {
        1u8
    } else {
        0u8
    }
}

fn sum_tail(h: &Vec<i32>, n: usize) -> (s: i64)
    requires
        n <= h@.len() <= CORR_HIST_LEN,
        forall|i: int| 0 <= i < h@.len() ==> -IP_SCALE <= #[trigger] h@[i] <= IP_SCALE,
    ensures
        s == ip_sum(h@, n as int),
        -(n as int) * (IP_SCALE as int) <= s <= (n as int) * (IP_SCALE as int),
{
    let mut s: i64 = 0;
    let mut k: usize = 0;
    let len = h.len();
    while k < n
        invariant
            k <= n,
            n <= h@.len() <= CORR_HIST_LEN,
            len == h@.len(),
            forall|i: int| 0 <= i < h@.len() ==> -IP_SCALE <= #[trigger] h@[i] <= IP_SCALE,
            s == ip_sum(h@, n as int) - ip_sum(h@, (n - k) as int),
            -(k as int) * (IP_SCALE as int) <= s <= (k as int) * (IP_SCALE as int),
        decreases n - k,
    {
        proof {
            assert(ip_sum(h@, (n - k) as int) == h@[h@.len() - (n - k)] + ip_sum(
                h@,
                (n - k) as int - 1,
            ));
        }
        s = s + (h[len - n + k] as i64);
        k += 1;
    }
    s
}

fn abs_sum_tail(h: &Vec<i32>, n: usize) -> (s: i64)
    requires
        n <= h@.len() <= CORR_HIST_LEN,
        forall|i: int| 0 <= i < h@.len() ==> -IP_SCALE <= #[trigger] h@[i] <= IP_SCALE,
    ensures
        s == ip_abs_sum(h@, n as int),
        0 <= s <= (n as int) * (IP_SCALE as int),
{
    let mut s: i64 = 0;
    let mut k: usize = 0;
    let len = h.len();
    while k < n
        invariant
            k <= n,
            n <= h@.len() <= CORR_HIST_LEN,
            len == h@.len(),
            forall|i: int| 0 <= i < h@.len() ==> -IP_SCALE <= #[trigger] h@[i] <= IP_SCALE,
            s == ip_abs_sum(h@, n as int) - ip_abs_sum(h@, (n - k) as int),
            0 <= s <= (k as int) * (IP_SCALE as int),
        decreases n - k,
    {
        proof {
            assert(ip_abs_sum(h@, (n - k) as int) == spec_abs(h@[h@.len() - (n - k)] as int)
                + ip_abs_sum(h@, (n - k) as int - 1));
        }
        let v = h[len - n + k];
        let a: i64 = if v < 0 {
            -(v as i64)
        } else {
            v as i64
        };
        s = s + a;
        k += 1;
    }
    s
}

/// Two equal-length symbol windows are opposed when every entry of one is
/// the complement of the entry of the other.
pub open spec fn spec_opposed(a: Seq<u8>, b: Seq<u8>) -> bool {
    forall|k: int| 0 <= k < a.len() ==> b[k] == a[k] ^ 1
}

/// What the frame synchronizer reports for a symbol FIFO: the two eight-bit
/// windows 308 and 8 symbols from the end both equal the preamble
/// (`Normal`), both equal its complement (`Reversed`), or neither (`None`).
pub open spec fn spec_frame_sync_state(bits: Seq<u8>, pre: Seq<u8>) -> SyncState {
    let l = bits.len() as int;
    let beg = bits.subrange(l - 308, l - 300);
    let end = bits.subrange(l - 8, l);
    if beg == pre && end == pre {
        SyncState::Normal
    } else if spec_opposed(pre, beg) && spec_opposed(pre, end) {
        SyncState::Reversed
    } else {
        SyncState::NoSync
    }
}

/// The six parity masks of the LNAV word, applied to D29*, D30* and the 24
/// data bits.
pub open spec fn spec_mask(j: int) -> u32 {
    if j == 0 {
        0x2EC7CD2
    } else if j == 1 {
        0x1763E69
    } else if j == 2 {
        0x2BB1F34
    } else if j == 3 {
        0x15D8F9A
    } else if j == 4 {
        0x1AEC7CD
    } else {
        0x22DEA27
    }
}

fn parity_mask(j: usize) -> (m: u32)
    requires
        j < 6,
    ensures
        m == spec_mask(j as int),
{
    match j {
        0 => 0x2EC7CD2,
        1 => 0x1763E69,
        2 => 0x2BB1F34,
        3 => 0x15D8F9A,
        4 => 0x1AEC7CD,
        _ => 0x22DEA27,
    }
}

/// The 32-bit shift register after the first `n` symbols have been shifted
/// in, most significant first.  The two bits above each fresh word are the
/// last two (parity) bits of the word before it.
pub open spec fn spec_raw(bits: Seq<u8>, n: nat) -> u32
    decreases n,
{
    if n == 0 {
        0u32
    } else {
        (spec_raw(bits, (n - 1) as nat) << 1u32) | (bits[n as int - 1] as u32)
    }
}

/// Undoes the polarity that the previous word's last parity bit (D30*)
/// imposes on the 24 data bits.
pub open spec fn spec_compl(d: u32) -> u32 {
    if d & 0x4000_0000u32 != 0 {
        d ^ 0x3FFF_FFC0u32
    } else {
        d
    }
}

/// Word `k` of a 300-symbol subframe as the checker sees it: 30 fresh bits
/// under the previous word's two parity bits, polarity corrected.
pub open spec fn spec_word(bits: Seq<u8>, k: int) -> u32 {
    spec_compl(spec_raw(bits, (30 * (k + 1)) as nat))
}

/// Parity equation `j` of word `k`: the parity of the masked data bits
/// (with D29*, D30*) equals transmitted parity bit `j`.
pub open spec fn spec_word_check(bits: Seq<u8>, k: int, j: int) -> bool {
    let d = spec_word(bits, k);
    spec_parity((d >> 6u32) & spec_mask(j)) == (d >> ((5 - j) as u32)) & 1u32
}

pub open spec fn spec_word_ok(bits: Seq<u8>, k: int) -> bool {
    forall|j: int| 0 <= j < 6 ==> spec_word_check(bits, k, j)
}

/// All sixty parity equations of a 300-symbol subframe hold.
pub open spec fn spec_lnav_parity_ok(bits: Seq<u8>) -> bool {
    forall|k: int| 0 <= k < 10 ==> spec_word_ok(bits, k)
}

/// Word `k`'s slot of the output buffer holds its 24 polarity-corrected
/// data bits left-aligned and six zero parity bits.
pub open spec fn spec_word_written(navd: Seq<u8>, bits: Seq<u8>, k: int) -> bool {
    spec_getbitu(navd, 30 * k, 24) == (spec_word(bits, k) >> 6u32) & 0xFFFFFF && spec_getbitu(
        navd,
        30 * k + 24,
        6,
    ) == 0
}

/// Data bit `p` of the subframe with the polarity of its word corrected:
/// the transmitted symbol, complemented when the last bit of the previous
/// word was one.
pub open spec fn spec_data_bit(bits: Seq<u8>, p: int) -> u32 {
    if p / 30 >= 1 && bits[30 * (p / 30) - 1] == 1 {
        ((bits[p] ^ 1) as u32) & 1
    } else {
        (bits[p] as u32) & 1
    }
}

/// Bit `s` of the register is the symbol shifted in `s + 1` steps before
/// the end.
pub proof fn lemma_raw_bit(bits: Seq<u8>, n: nat, s: u32)
    requires
        s < 32,
        (s as int) < n,
        n <= bits.len(),
        forall|i: int| 0 <= i < bits.len() ==> #[trigger] bits[i] <= 1,
    ensures
        (spec_raw(bits, n) >> s) & 1u32 == bits[n - 1 - s as int] as u32,
    decreases n,
{
    let prev = spec_raw(bits, (n - 1) as nat);
    let b = bits[n as int - 1] as u32;
    if s == 0 {
        assert((((prev << 1u32) | b) >> 0u32) & 1u32 == b) by (bit_vector)
            requires
                b <= 1,
        ;
    } else {
        lemma_raw_bit(bits, (n - 1) as nat, (s - 1) as u32);
        assert((((prev << 1u32) | b) >> s) & 1u32 == (prev >> ((s - 1) as u32)) & 1u32)
            by (bit_vector)
            requires
                1 <= s < 32,
                b <= 1,
        ;
    }
}

/// The register holding `n <= 30` symbols keeps its top bits clear.
pub proof fn lemma_raw_bound(bits: Seq<u8>, n: nat)
    requires
        n <= 30,
        forall|i: int| 0 <= i < bits.len() ==> #[trigger] bits[i] <= 1,
        n <= bits.len(),
    ensures
        (spec_raw(bits, n) as u64) < (1u64 << (n as u64)),
    decreases n,
{
    if n == 0 {
        lemma_pow2_values();
    } else {
        lemma_raw_bound(bits, (n - 1) as nat);
        let prev = spec_raw(bits, (n - 1) as nat);
        let b = bits[n as int - 1] as u32;
        let m = (n - 1) as u64;
        assert((((prev << 1u32) | b) as u64) < (1u64 << ((m + 1) as u64))) by (bit_vector)
            requires
                (prev as u64) < (1u64 << m),
                b <= 1,
                m <= 29,
        ;
    }
}

/// Everything `nav_sync_symbol` does, as a relation between the channel
/// before (`c0`) and after (`c1`) one call with bit period `num`.
pub open spec fn spec_sync_symbol_rel(c0: Channel, c1: Channel, emitted: bool, num: int) -> bool {
    &&& c1.sv == c0.sv
    &&& c1.num_trk_samples == c0.num_trk_samples
    &&& c1.hist == c0.hist
    &&& c1.nav.nav_sync == c0.nav.nav_sync
    &&& c1.nav.count_parity_err == c0.nav.count_parity_err
    &&& c1.nav.eph == c0.nav.eph
    &&& (c0.nav.bit_sync == 0 ==> {
        let n = spec_sync_n(c0.num_trk_samples as int, num);
        &&& emitted == false
        &&& c1.nav.bits == c0.nav.bits
        &&& c1.nav.sync_state == c0.nav.sync_state
        &&& c1.nav.bit_sync == (if n >= 1 && spec_bitsync_cond(c0.hist.corr_p@, n) {
            c0.num_trk_samples - n
        } else {
            0int
        })
    })
    &&& (c0.nav.bit_sync > 0 && (c0.num_trk_samples - c0.nav.bit_sync) % num != 0 ==> c1.nav
        == c0.nav && emitted == false)
    &&& (c0.nav.bit_sync > 0 && (c0.num_trk_samples - c0.nav.bit_sync) % num == 0 ==> {
        if spec_symbol_ok(c0.hist.corr_p@, num) {
            &&& emitted == true
            &&& c1.nav.bits@ == c0.nav.bits@.subrange(1, SDR_MAX_NSYM as int).push(
                spec_symbol_bit(c0.hist.corr_p@, num),
            )
            &&& c1.nav.bit_sync == c0.nav.bit_sync
            &&& c1.nav.sync_state == c0.nav.sync_state
        } else {
            &&& emitted == false
            &&& c1.nav.bits == c0.nav.bits
            &&& c1.nav.bit_sync == 0
            &&& c1.nav.sync_state == SyncState::Normal
        }
    })
}

impl Channel {
    /// Pushes one demodulated symbol into the navigation FIFO from the
    /// right; the oldest symbol leaves on the left.
    pub fn nav_add_bit(&mut self, bit: u8)
        requires
            old(self).wf(),
            bit <= 1,
        ensures
            final(self).wf(),
            final(self).nav.bits@ == old(self).nav.bits@.subrange(1, SDR_MAX_NSYM as int).push(
                bit,
            ),
            final(self).nav.bit_sync == old(self).nav.bit_sync,
            final(self).nav.nav_sync == old(self).nav.nav_sync,
            final(self).nav.sync_state == old(self).nav.sync_state,
            final(self).nav.count_parity_err == old(self).nav.count_parity_err,
            final(self).nav.eph == old(self).nav.eph,
            final(self).sv == old(self).sv,
            final(self).num_trk_samples == old(self).num_trk_samples,
            final(self).hist == old(self).hist,
    {
        self.nav.bits.remove(0);
        self.nav.bits.push(bit);
        proof {
            assert(self.nav.bits@ =~= old(self).nav.bits@.subrange(1, SDR_MAX_NSYM as int).push(
                bit,
            ));
        }
    }

    /// Compares the two preamble windows of the symbol FIFO and reports the
    /// frame polarity.
    pub fn nav_get_frame_sync_state(&self, preambule: &[u8]) -> (r: SyncState)
        requires
            self.wf(),
            preambule@.len() == 8,
        ensures
            r == spec_frame_sync_state(self.nav.bits@, preambule@),
    {
        let l = self.nav.bits.len();
        let all = self.nav.bits.as_slice();
        let bits_beg = slice_subrange(all, l - 308, l - 300);
        let bits_end = slice_subrange(all, l - 8, l);
        if crate::bits::bits_equal(preambule, bits_beg) && crate::bits::bits_equal(
            preambule,
            bits_end,
        ) {
            SyncState::Normal
        } else if crate::bits::bits_opposed(preambule, bits_beg) && crate::bits::bits_opposed(
            preambule,
            bits_end,
        ) {
            SyncState::Reversed
        } else {
            SyncState::NoSync
        }
    }

    /// Watches the correlator history for navigation bit edges and, once
    /// synchronized, emits one symbol every `num` code periods.  Returns
    /// true exactly when a symbol entered the FIFO.
    pub fn nav_sync_symbol(&mut self, num: usize) -> (emitted: bool)
        requires
            old(self).wf(),
            1 <= num,
            2 * num <= CORR_HIST_LEN,
            old(self).num_trk_samples >= 1,
        ensures
            final(self).wf(),
            spec_sync_symbol_rel(*old(self), *final(self), emitted, num as int),
    {
        if self.nav.bit_sync == 0 {
            let n: usize = if self.num_trk_samples - 1 <= num {
                self.num_trk_samples - 1
            } else {
                num
            };
            if n == 0 {
                return false;
            }
            let s1 = sum_tail(&self.hist.corr_p, n);
            let s2 = sum_tail(&self.hist.corr_p, 2 * n);
            let r2 = abs_sum_tail(&self.hist.corr_p, 2 * n);
            let p2 = 2 * s1 - s2;
            let pa: i64 = if p2 < 0 {
                -p2
            } else {
                p2
            };
            if pa >= r2 && 5 * r2 >= 4 * (n as i64) * (IP_SCALE as i64) {
                self.nav.bit_sync = self.num_trk_samples - n;
            }
            false
        } else if (self.num_trk_samples - self.nav.bit_sync) % num == 0 {
            let s = sum_tail(&self.hist.corr_p, num);
            proof {
                assert(num <= 20);
                assert(-20_000_000 <= s <= 20_000_000);
            }
            let sa: i64 = if s < 0 {
                -s
            } else {
                s
            };
            proof {
                assert(0 <= sa <= 20_000_000);
                assert(100 * sa <= 2_000_000_000);
                assert(3 * (num as i64) * (IP_SCALE as i64) <= 60_000_000) by (nonlinear_arith)
                    requires
                        num <= 20,
                        IP_SCALE == 1_000_000,
                ;
            }
            if 100 * sa >= 3 * (num as i64) * (IP_SCALE as i64) {
                let sym: u8 = if s >= 0 {
                    1
                } else {
                    0
                };
                self.nav_add_bit(sym);
                true
            } else {
                self.nav.bit_sync = 0;
                self.nav.sync_state = SyncState::Normal;
                false
            }
        } else {
            false
        }
    }

    /// Checks the sixty parity equations of a 300-symbol subframe and, when
    /// they all hold, writes the polarity-corrected 24 data bits of each
    /// word left-aligned into its 30-bit slot of `nav_data`, parity slots
    /// zero.
    #[verifier::rlimit(100)]
    pub fn nav_test_lnav_parity(bits: &Vec<u8>, nav_data: &mut Vec<u8>) -> (ok: bool)
        requires
            bits@.len() == 300,
            forall|i: int| 0 <= i < 300 ==> #[trigger] bits@[i] <= 1,
            old(nav_data)@.len() == 300,
        ensures
            final(nav_data)@.len() == 300,
            ok == spec_lnav_parity_ok(bits@),
            ok ==> forall|p: int|
                0 <= p < 300 && p % 30 < 24 ==> nth_bit(final(nav_data)@, p) == spec_data_bit(
                    bits@,
                    p,
                ),
            ok ==> forall|p: int|
                0 <= p < 300 && p % 30 >= 24 ==> nth_bit(final(nav_data)@, p) == 0,
            ok ==> forall|k: int| 0 <= k < 10 ==> spec_word_written(final(nav_data)@, bits@, k),
    {
        let mut data: u32 = 0;
        let mut i: usize = 0;
        while i < 10
            invariant
                i <= 10,
                bits@.len() == 300,
                forall|b: int| 0 <= b < 300 ==> #[trigger] bits@[b] <= 1,
                nav_data@.len() == 300,
                data == spec_raw(bits@, (30 * i) as nat),
                forall|k: int| 0 <= k < i ==> spec_word_ok(bits@, k),
                forall|p: int|
                    0 <= p < 30 * i && p % 30 < 24 ==> nth_bit(nav_data@, p) == spec_data_bit(
                        bits@,
                        p,
                    ),
                forall|p: int| 0 <= p < 30 * i && p % 30 >= 24 ==> nth_bit(nav_data@, p) == 0,
                forall|k: int| 0 <= k < i ==> spec_word_written(nav_data@, bits@, k),
            decreases 10 - i,
        {
            let mut j: usize = 0;
            while j < 30
                invariant
                    j <= 30,
                    i < 10,
                    bits@.len() == 300,
                    forall|b: int| 0 <= b < 300 ==> #[trigger] bits@[b] <= 1,
                    data == spec_raw(bits@, (30 * i + j) as nat),
                decreases 30 - j,
            {
                data = (data << 1u32) | (bits[30 * i + j] as u32);
                j += 1;
            }
            let d: u32 = if data & 0x4000_0000u32 != 0 {
                data ^ 0x3FFF_FFC0u32
            } else {
                data
            };
            proof {
                assert(d == spec_word(bits@, i as int));
            }
            let mut j: usize = 0;
            while j < 6
                invariant
                    j <= 6,
                    i < 10,
                    bits@.len() == 300,
                    nav_data@.len() == 300,
                    d == spec_word(bits@, i as int),
                    forall|jj: int| 0 <= jj < j ==> spec_word_check(bits@, i as int, jj),
                decreases 6 - j,
            {
                let v0 = (d >> 6u32) & parity_mask(j);
                let sh: u32 = (5 - j) as u32;
                let v1u = (d >> sh) & 1;
                proof {
                    assert((d >> sh) & 1 <= 1) by (bit_vector);
                }
                let v1: u8 = v1u as u8;
                if xor_bits(v0) != v1 {
                    proof {
                        assert(!spec_word_check(bits@, i as int, j as int));
                        assert(!spec_word_ok(bits@, i as int));
                        assert(!spec_lnav_parity_ok(bits@));
                    }
                    return false;
                }
                proof {
                    assert(spec_word_check(bits@, i as int, j as int));
                }
                j += 1;
            }
            let v = (d >> 6u32) & 0xFFFFFF;
            proof {
                lemma_pow2_values();
                assert((v as u64) < (1u64 << 24u64) && (0u32 as u64) < (1u64 << 6u64))
                    by (bit_vector)
                    requires
                        v == (d >> 6u32) & 0xFFFFFF,
                ;
            }
            let ghost nav0 = nav_data@;
            setbitu(nav_data, 30 * i, 24, v);
            let ghost nav1 = nav_data@;
            setbitu(nav_data, 30 * i + 24, 6, 0);
            proof {
                let raw = spec_raw(bits@, (30 * (i + 1)) as nat);
                // the data field of word i survives the parity-slot write
                lemma_getbitu_frame(nav_data@, nav1, 30 * i as int, 24);
                assert(spec_getbitu(nav_data@, 30 * i as int, 24) == v);
                lemma_getbitu_to_bits(nav_data@, 30 * i as int, 24);
                lemma_getbitu_to_bits(nav_data@, 30 * i as int + 24, 6);
                // bits of word i match the corrected data bits
                assert forall|p: int|
                    30 * i <= p < 30 * i + 24 implies nth_bit(nav_data@, p) == spec_data_bit(
                    bits@,
                    p,
                ) by {
                    let t = p - 30 * i;
                    let s: u32 = (29 - t) as u32;
                    let s23: u32 = (23 - t) as u32;
                    assert(nth_bit(nav_data@, p) == (v >> s23) & 1u32);
                    assert((v >> s23) & 1u32 == (d >> s) & 1u32) by (bit_vector)
                        requires
                            v == (d >> 6u32) & 0xFFFFFF,
                            s23 <= 23,
                            s == s23 + 6,
                    ;
                    lemma_raw_bit(bits@, (30 * (i + 1)) as nat, s);
                    assert((p / 30) == i as int) by (nonlinear_arith)
                        requires
                            p == 30 * (i as int) + t,
                            0 <= t < 30,
                    ;
                    if i == 0 {
                        lemma_raw_bound(bits@, 30);
                        assert(d == spec_compl(raw));
                        let rb: u32 = bits@[30 * (i as int + 1) - 1 - s as int] as u32;
                        assert((d >> s) & 1u32 == rb) by (bit_vector)
                            requires
                                d == (if raw & 0x4000_0000u32 != 0 {
                                    raw ^ 0x3FFF_FFC0u32
                                } else {
                                    raw
                                }),
                                (raw as u64) < (1u64 << 30u64),
                                (raw >> s) & 1u32 == rb,
                                6 <= s <= 29,
                        ;
                        assert(spec_data_bit(bits@, p) == (bits@[p] as u32) & 1u32);
                        let bpv: u8 = bits@[p];
                        assert(bpv <= 1 ==> ((bpv as u32) & 1u32) == bpv as u32) by (bit_vector);
                    } else {
                        lemma_raw_bit(bits@, (30 * (i + 1)) as nat, 30);
                        let dprev: u8 = bits@[30 * (i as int) - 1];
                        assert((raw >> 30u32) & 1u32 == dprev as u32);
                        let bp: u8 = bits@[p];
                        assert((d >> s) & 1u32 == (if dprev == 1 {
                            ((bp ^ 1) as u32) & 1u32
                        } else {
                            (bp as u32) & 1u32
                        })) by (bit_vector)
                            requires
                                d == (if raw & 0x4000_0000u32 != 0 {
                                    raw ^ 0x3FFF_FFC0u32
                                } else {
                                    raw
                                }),
                                (raw >> 30u32) & 1u32 == dprev as u32,
                                (raw >> s) & 1u32 == bp as u32,
                                dprev <= 1,
                                bp <= 1,
                                6 <= s <= 29,
                        ;
                    }
                }
                // parity slots of word i are zero
                assert forall|p: int|
                    30 * i + 24 <= p < 30 * i + 30 implies nth_bit(nav_data@, p) == 0 by {
                    let t = p - (30 * i + 24);
                    let s5: u32 = (5 - t) as u32;
                    assert(nth_bit(nav_data@, p) == (0u32 >> s5) & 1u32);
                    assert((0u32 >> s5) & 1u32 == 0) by (bit_vector);
                }
                // everything before word i is untouched
                assert forall|p: int| 0 <= p < 30 * i implies nth_bit(nav_data@, p) == nth_bit(
                    nav0,
                    p,
                ) by {
                    assert(nth_bit(nav1, p) == nth_bit(nav0, p));
                }
                assert forall|k: int| 0 <= k < i implies spec_word_written(
                    nav_data@,
                    bits@,
                    k,
                ) by {
                    assert(spec_word_written(nav0, bits@, k));
                    assert forall|p: int| 30 * k <= p < 30 * k + 30 implies nth_bit(nav_data@, p)
                        == nth_bit(nav0, p) by {
                        assert(0 <= p < 30 * i);
                    }
                    lemma_getbitu_frame(nav_data@, nav0, 30 * k, 24);
                    lemma_getbitu_frame(nav_data@, nav0, 30 * k + 24, 6);
                }
                assert(spec_word_written(nav_data@, bits@, i as int));
            }
            i += 1;
        }
        proof {
            assert(spec_lnav_parity_ok(bits@));
        }
        true
    }
}

/// The eight-symbol LNAV preamble.
pub open spec fn spec_preamble() -> Seq<u8> {
    seq![1u8, 0u8, 0u8, 0u8, 1u8, 0u8, 1u8, 1u8]
}

/// The 300 symbols a frame decode works on: the window from 308 to 8
/// symbols before the end of the FIFO, with the frame polarity applied.
pub open spec fn spec_window(bits: Seq<u8>, rev: u8) -> Seq<u8> {
    Seq::new(300, |i: int| bits[bits.len() - 308 + i] ^ rev)
}

/// A decode buffer holding the polarity-corrected data bits of window `w`:
/// what the parity check writes when it passes.
pub open spec fn spec_decoded_buf(navd: Seq<u8>, w: Seq<u8>) -> bool {
    &&& navd.len() == 300
    &&& (forall|p: int| 0 <= p < 300 && p % 30 < 24 ==> nth_bit(navd, p) == spec_data_bit(w, p))
    &&& (forall|p: int| 0 <= p < 300 && p % 30 >= 24 ==> nth_bit(navd, p) == 0)
    &&& (forall|k: int| 0 <= k < 10 ==> spec_word_written(navd, w, k))
}

/// Setting the telemetry word from the decoded buffer.
pub open spec fn spec_with_tlm(e: Ephemeris, b: Seq<u8>) -> Ephemeris {
    Ephemeris { tlm: spec_getbitu(b, 8, 14) as u32, ..e }
}

/// Subframes 4 and 5 touch the ephemeris only through the handover word.
pub open spec fn spec_with_tow(e: Ephemeris, b: Seq<u8>) -> Ephemeris {
    Ephemeris { tow: (spec_getbitu(b, 30, 17) * 6) as u32, ..e }
}

/// What the subframe dispatch does to the ephemeris, by subframe id.
pub open spec fn spec_dispatch_eph(e: Ephemeris, b: Seq<u8>) -> Ephemeris {
    let id = spec_getbitu(b, 49, 3);
    if id == 1 {
        Ephemeris::spec_sf1(e, b)
    } else if id == 2 {
        Ephemeris::spec_sf2(e, b)
    } else if id == 3 {
        Ephemeris::spec_sf3(e, b)
    } else if id == 4 || id == 5 {
        spec_with_tow(e, b)
    } else {
        e
    }
}

/// Once the week is known, the times of week, ephemeris and clock become
/// whole GPST seconds and the record is stamped with the channel time.
pub open spec fn spec_post_eph(e: Ephemeris, ts: usize) -> Ephemeris {
    if e.week != 0 {
        Ephemeris {
            tow_gpst_sec: (e.week * SECS_PER_WEEK + e.tow) as u64,
            toe_gpst_sec: (e.week * SECS_PER_WEEK + e.toes) as u64,
            toc_gpst_sec: (e.week * SECS_PER_WEEK + e.toc) as u64,
            ts_msec: ts,
            ..e
        }
    } else {
        e
    }
}

/// Bit position of the four-bit SV configuration field of each PRN on
/// subframe 4 page 25 (0-based slot).
pub open spec fn spec_svconf_pos(v: int) -> int {
    if v < 4 {
        68 + 4 * v
    } else if v < 10 {
        90 + 4 * (v - 4)
    } else if v < 16 {
        120 + 4 * (v - 10)
    } else if v < 22 {
        150 + 4 * (v - 16)
    } else if v < 28 {
        180 + 4 * (v - 22)
    } else {
        210 + 4 * (v - 28)
    }
}

/// Bit position of the six-bit health field of PRN 25 + i on subframe 4
/// page 25.
pub open spec fn spec_svh4_pos(i: int) -> int {
    if i == 0 {
        228
    } else if i < 4 {
        240 + 6 * (i - 1)
    } else if i == 4 {
        258
    } else {
        270 + 6 * (i - 5)
    }
}

/// Bit position of the six-bit health field of PRN 1 + i on subframe 5
/// page 25.
pub open spec fn spec_svh5_pos(i: int) -> int {
    let w = i / 4;
    let r = i % 4;
    90 + 30 * w + 6 * r
}

fn svconf_pos(v: u8) -> (p: usize)
    requires
        v < 32,
    ensures
        p == spec_svconf_pos(v as int),
        68 <= p <= 222,
{
    let vv = v as usize;
    if vv < 4 {
        68 + 4 * vv
    } else if vv < 10 {
        90 + 4 * (vv - 4)
    } else if vv < 16 {
        120 + 4 * (vv - 10)
    } else if vv < 22 {
        150 + 4 * (vv - 16)
    } else if vv < 28 {
        180 + 4 * (vv - 22)
    } else {
        210 + 4 * (vv - 28)
    }
}

fn svh4_pos(i: u8) -> (p: usize)
    requires
        i < 8,
    ensures
        p == spec_svh4_pos(i as int),
        228 <= p <= 282,
{
    let ii = i as usize;
    if ii == 0 {
        228
    } else if ii < 4 {
        240 + 6 * (ii - 1)
    } else if ii == 4 {
        258
    } else {
        270 + 6 * (ii - 5)
    }
}

fn svh5_pos(i: u8) -> (p: usize)
    requires
        i < 24,
    ensures
        p == spec_svh5_pos(i as int),
        90 <= p <= 258,
{
    let ii = i as usize;
    proof {
        vstd::arithmetic::div_mod::lemma_fundamental_div_mod(i as int, 4);
    }
    90 + 30 * (ii / 4) + 6 * (ii % 4)
}

/// One almanac slot after subframe 4 page 25: SV configuration for every
/// PRN, health for PRN 25 through 32.
pub open spec fn spec_sf4_slot(a: Almanac, b: Seq<u8>, v: int) -> Almanac {
    Almanac {
        svconf: spec_getbitu(b, spec_svconf_pos(v), 4) as u32,
        svh: if v >= 24 {
            spec_getbitu(b, spec_svh4_pos(v - 24), 6) as u32
        } else {
            a.svh
        },
        ..a
    }
}

/// One almanac slot after subframe 5 page 25: the shared reference week
/// and time for every PRN, health for PRN 1 through 24.
pub open spec fn spec_sf5_page25_slot(a: Almanac, b: Seq<u8>, v: int) -> Almanac {
    Almanac {
        week: (spec_getbitu(b, 76, 8) + 2048) as u32,
        toas: (spec_getbitu(b, 68, 8) * 4096) as u32,
        svh: if v < 24 {
            spec_getbitu(b, spec_svh5_pos(v), 6) as u32
        } else {
            a.svh
        },
        ..a
    }
}

/// What subframe 4 does to the published state, by data id and page.
pub open spec fn spec_sf4_state(s0: GnssState, s1: GnssState, b: Seq<u8>) -> bool {
    let data_id = spec_getbitu(b, 60, 2);
    let svid = spec_getbitu(b, 62, 6) as int;
    &&& s1.tow_gpst_sec == s0.tow_gpst_sec
    &&& s1.updates == s0.updates
    &&& s1.channels == s0.channels
    &&& if data_id == 1 && 25 <= svid <= 32 {
        &&& s1.almanac@ == s0.almanac@.update(
            svid - 1,
            Almanac::spec_alm_decoded(s0.almanac@[svid - 1], b),
        )
        &&& s1.ion_adj == s0.ion_adj
        &&& s1.utc_adj == s0.utc_adj
    } else if data_id == 1 && svid == 63 {
        &&& s1.almanac@.len() == s0.almanac@.len()
        &&& (forall|v: int|
            0 <= v < 32 ==> s1.almanac@[v] == spec_sf4_slot(s0.almanac@[v], b, v))
        &&& s1.ion_adj == s0.ion_adj
        &&& s1.utc_adj == s0.utc_adj
    } else if data_id == 1 && svid == 56 {
        &&& s1.almanac == s0.almanac
        &&& s1.ion_adj == true
        &&& s1.utc_adj == true
    } else {
        &&& s1.almanac == s0.almanac
        &&& s1.ion_adj == s0.ion_adj
        &&& s1.utc_adj == s0.utc_adj
    }
}

/// What subframe 5 does to the published state, by data id and page.
pub open spec fn spec_sf5_state(s0: GnssState, s1: GnssState, b: Seq<u8>) -> bool {
    let data_id = spec_getbitu(b, 60, 2);
    let svid = spec_getbitu(b, 62, 6) as int;
    &&& s1.tow_gpst_sec == s0.tow_gpst_sec
    &&& s1.updates == s0.updates
    &&& s1.channels == s0.channels
    &&& s1.ion_adj == s0.ion_adj
    &&& s1.utc_adj == s0.utc_adj
    &&& if data_id == 1 && 1 <= svid <= 24 {
        s1.almanac@ == s0.almanac@.update(
            svid - 1,
            Almanac::spec_alm_decoded(s0.almanac@[svid - 1], b),
        )
    } else if data_id == 1 && svid == 51 {
        s1.almanac@.len() == s0.almanac@.len() && (forall|v: int|
            0 <= v < 32 ==> s1.almanac@[v] == spec_sf5_page25_slot(s0.almanac@[v], b, v))
    } else {
        s1.almanac == s0.almanac
    }
}

/// What the subframe dispatch does to the published state.
pub open spec fn spec_dispatch_state(s0: GnssState, s1: GnssState, b: Seq<u8>) -> bool {
    let id = spec_getbitu(b, 49, 3);
    if id == 4 {
        spec_sf4_state(s0, s1, b)
    } else if id == 5 {
        spec_sf5_state(s0, s1, b)
    } else {
        s1 == s0
    }
}

/// After a subframe: a complete ephemeris flags its channel, and a known
/// week publishes the time of week (one more publication).  `e` is the
/// ephemeris as the dispatch left it.
pub open spec fn spec_post_state(e: Ephemeris, prn: u8, s0: GnssState, s1: GnssState) -> bool {
    &&& s1.almanac == s0.almanac
    &&& s1.ion_adj == s0.ion_adj
    &&& s1.utc_adj == s0.utc_adj
    &&& s1.channels@ == (if e.spec_complete() {
        s0.channels@.update(
            prn - 1,
            Some(ChannelState { has_eph: true, ..s0.channels@[prn - 1].unwrap() }),
        )
    } else {
        s0.channels@
    })
    &&& if e.week != 0 {
        s1.tow_gpst_sec == e.week * SECS_PER_WEEK + e.tow && s1.updates == s0.updates + 1
    } else {
        s1.tow_gpst_sec == s0.tow_gpst_sec && s1.updates == s0.updates
    }
}

/// The whole effect of one decoded subframe buffer on the published state.
pub open spec fn spec_subframe_state_rel(
    e2: Ephemeris,
    prn: u8,
    s0: GnssState,
    s1: GnssState,
    navd: Seq<u8>,
) -> bool {
    exists|smid: GnssState|
        #![auto]
        spec_dispatch_state(s0, smid, navd) && spec_post_state(e2, prn, smid, s1)
}

/// What one frame decode attempt does: on parity success the frame
/// boundary is confirmed and the subframe is applied; on failure the frame
/// synchronization resets and the error is counted.
pub open spec fn spec_decode_lnav_ok(
    c0: Channel,
    c1: Channel,
    s0: GnssState,
    s1: GnssState,
    sync: SyncState,
    w: Seq<u8>,
) -> bool {
    &&& c1.nav.nav_sync == c0.num_trk_samples
    &&& c1.nav.sync_state == sync
    &&& c1.nav.count_parity_err == c0.nav.count_parity_err
    &&& exists|navd: Seq<u8>|
        #![auto]
        spec_decoded_buf(navd, w) && c1.nav.eph == spec_post_eph(
            spec_dispatch_eph(spec_with_tlm(c0.nav.eph, navd), navd),
            c0.num_trk_samples,
        ) && spec_subframe_state_rel(
            spec_dispatch_eph(spec_with_tlm(c0.nav.eph, navd), navd),
            c0.sv.prn,
            s0,
            s1,
            navd,
        )
}

pub open spec fn spec_decode_lnav_fail(c0: Channel, c1: Channel, s0: GnssState, s1: GnssState) -> bool {
    &&& c1.nav.nav_sync == 0
    &&& c1.nav.sync_state == SyncState::Normal
    &&& c1.nav.count_parity_err == c0.nav.count_parity_err + 1
    &&& c1.nav.eph == c0.nav.eph
    &&& s1 == s0
}

pub open spec fn spec_decode_lnav_rel(
    c0: Channel,
    c1: Channel,
    s0: GnssState,
    s1: GnssState,
    sync: SyncState,
) -> bool {
    let w = spec_window(
        c0.nav.bits@,
        if sync == SyncState::Normal {
            0u8
        } else {
            1u8
        },
    );
    &&& c1.sv == c0.sv
    &&& c1.num_trk_samples == c0.num_trk_samples
    &&& c1.hist == c0.hist
    &&& c1.nav.bits == c0.nav.bits
    &&& c1.nav.bit_sync == c0.nav.bit_sync
    &&& if spec_lnav_parity_ok(w) {
        spec_decode_lnav_ok(c0, c1, s0, s1, sync, w)
    } else {
        spec_decode_lnav_fail(c0, c1, s0, s1)
    }
}

/// The frame-synchronization step that follows an emitted symbol: attempt
/// a decode exactly at the expected boundary, resynchronize after it, or
/// search for a first frame once enough symbols are in.
pub open spec fn spec_frame_step_rel(
    c1: Channel,
    c2: Channel,
    s0: GnssState,
    s1: GnssState,
) -> bool {
    let nts = c1.num_trk_samples as int;
    let sync = spec_frame_sync_state(c1.nav.bits@, spec_preamble());
    if c1.nav.nav_sync > 0 {
        if nts == c1.nav.nav_sync + 6000 {
            if sync == c1.nav.sync_state {
                spec_decode_lnav_rel(c1, c2, s0, s1, sync)
            } else {
                c2 == c1 && s1 == s0
            }
        } else if nts > c1.nav.nav_sync + 6000 {
            &&& c2.sv == c1.sv
            &&& c2.num_trk_samples == c1.num_trk_samples
            &&& c2.hist == c1.hist
            &&& c2.nav.bits == c1.nav.bits
            &&& c2.nav.eph == c1.nav.eph
            &&& c2.nav.count_parity_err == c1.nav.count_parity_err
            &&& c2.nav.bit_sync == 0
            &&& c2.nav.nav_sync == 0
            &&& c2.nav.sync_state == SyncState::Normal
            &&& s1 == s0
        } else {
            c2 == c1 && s1 == s0
        }
    } else {
        if nts >= 7160 && sync != SyncState::NoSync {
            spec_decode_lnav_rel(c1, c2, s0, s1, sync)
        } else {
            c2 == c1 && s1 == s0
        }
    }
}


impl Channel {
    /// Decodes subframe 1 into the channel's ephemeris.
    pub fn nav_decode_lnav_subframe1(&mut self, buf: &[u8])
        requires
            old(self).wf(),
            300 <= buf@.len() * 8 <= usize::MAX,
        ensures
            final(self).wf(),
            final(self).nav.eph == Ephemeris::spec_sf1(old(self).nav.eph, buf@),
            spec_same_but_eph(*old(self), *final(self)),
    {
        self.nav.eph.nav_decode_lnav_subframe1(buf);
    }

    /// Decodes subframe 2 into the channel's ephemeris.
    pub fn nav_decode_lnav_subframe2(&mut self, buf: &[u8])
        requires
            old(self).wf(),
            300 <= buf@.len() * 8 <= usize::MAX,
        ensures
            final(self).wf(),
            final(self).nav.eph == Ephemeris::spec_sf2(old(self).nav.eph, buf@),
            spec_same_but_eph(*old(self), *final(self)),
    {
        self.nav.eph.nav_decode_lnav_subframe2(buf);
    }

    /// Decodes subframe 3 into the channel's ephemeris.
    pub fn nav_decode_lnav_subframe3(&mut self, buf: &[u8])
        requires
            old(self).wf(),
            300 <= buf@.len() * 8 <= usize::MAX,
        ensures
            final(self).wf(),
            final(self).nav.eph == Ephemeris::spec_sf3(old(self).nav.eph, buf@),
            spec_same_but_eph(*old(self), *final(self)),
    {
        self.nav.eph.nav_decode_lnav_subframe3(buf);
    }

    /// Decodes subframe 4: almanac pages for PRN 25 through 32, the SV
    /// configuration and health page, and the ionosphere/UTC page, which is
    /// flagged in the published state.
    pub fn nav_decode_lnav_subframe4(&mut self, buf: &[u8], state: &mut GnssState)
        requires
            old(self).wf(),
            old(state).wf(),
            300 <= buf@.len() * 8 <= usize::MAX,
        ensures
            final(self).wf(),
            final(state).wf(),
            final(self).nav.eph == spec_with_tow(old(self).nav.eph, buf@),
            spec_same_but_eph(*old(self), *final(self)),
            spec_sf4_state(*old(state), *final(state), buf@),
    {
        let tow = getbitu(buf, 30, 17);
        proof {
            crate::bits::lemma_getbitu_bound(buf@, 30, 17);
            lemma_pow2_values();
        }
        self.nav.eph.tow = tow * 6;
        let data_id = getbitu(buf, 60, 2);
        let svid = getbitu(buf, 62, 6);
        if data_id == 1 {
            if 25 <= svid && svid <= 32 {
                let idx = (svid - 1) as usize;
                let mut a = state.almanac[idx];
                a.nav_decode_alm(buf);
                state.almanac.set(idx, a);
                proof {
                    assert(state.almanac@ =~= old(state).almanac@.update(
                        svid as int - 1,
                        Almanac::spec_alm_decoded(old(state).almanac@[svid as int - 1], buf@),
                    ));
                }
            } else if svid == 63 {
                let mut sv: u8 = 1;
                while sv <= 32
                    invariant
                        1 <= sv <= 33,
                        state.wf(),
                        state.tow_gpst_sec == old(state).tow_gpst_sec,
                        state.updates == old(state).updates,
                        state.channels == old(state).channels,
                        state.ion_adj == old(state).ion_adj,
                        state.utc_adj == old(state).utc_adj,
                        300 <= buf@.len() * 8 <= usize::MAX,
                        forall|v: int|
                            0 <= v < sv - 1 ==> state.almanac@[v] == (Almanac {
                                svconf: spec_getbitu(buf@, spec_svconf_pos(v), 4) as u32,
                                ..old(state).almanac@[v]
                            }),
                        forall|v: int|
                            sv - 1 <= v < 32 ==> state.almanac@[v] == old(state).almanac@[v],
                    decreases 33 - sv,
                {
                    let pos = svconf_pos(sv - 1);
                    let idx = (sv - 1) as usize;
                    let mut a = state.almanac[idx];
                    a.svconf = getbitu(buf, pos, 4);
                    state.almanac.set(idx, a);
                    sv += 1;
                }
                let mut sv: u8 = 25;
                while sv <= 32
                    invariant
                        25 <= sv <= 33,
                        state.wf(),
                        state.tow_gpst_sec == old(state).tow_gpst_sec,
                        state.updates == old(state).updates,
                        state.channels == old(state).channels,
                        state.ion_adj == old(state).ion_adj,
                        state.utc_adj == old(state).utc_adj,
                        300 <= buf@.len() * 8 <= usize::MAX,
                        forall|v: int|
                            0 <= v < 24 ==> state.almanac@[v] == (Almanac {
                                svconf: spec_getbitu(buf@, spec_svconf_pos(v), 4) as u32,
                                ..old(state).almanac@[v]
                            }),
                        forall|v: int|
                            24 <= v < sv - 1 ==> state.almanac@[v] == (Almanac {
                                svconf: spec_getbitu(buf@, spec_svconf_pos(v), 4) as u32,
                                svh: spec_getbitu(buf@, spec_svh4_pos(v - 24), 6) as u32,
                                ..old(state).almanac@[v]
                            }),
                        forall|v: int|
                            sv - 1 <= v < 32 ==> state.almanac@[v] == (Almanac {
                                svconf: spec_getbitu(buf@, spec_svconf_pos(v), 4) as u32,
                                ..old(state).almanac@[v]
                            }),
                    decreases 33 - sv,
                {
                    let pos = svh4_pos(sv - 25);
                    let idx = (sv - 1) as usize;
                    let mut a = state.almanac[idx];
                    a.svh = getbitu(buf, pos, 6);
                    state.almanac.set(idx, a);
                    sv += 1;
                }
                proof {
                    assert forall|v: int| 0 <= v < 32 implies state.almanac@[v] == spec_sf4_slot(
                        old(state).almanac@[v],
                        buf@,
                        v,
                    ) by {}
                }
            } else if svid == 56 {
                state.ion_adj = true;
                state.utc_adj = true;
            }
        }
    }

    /// Decodes subframe 5: almanac pages for PRN 1 through 24 and the
    /// health summary page, which also carries the shared almanac
    /// reference week and time.
    pub fn nav_decode_lnav_subframe5(&mut self, buf: &[u8], state: &mut GnssState)
        requires
            old(self).wf(),
            old(state).wf(),
            300 <= buf@.len() * 8 <= usize::MAX,
        ensures
            final(self).wf(),
            final(state).wf(),
            final(self).nav.eph == spec_with_tow(old(self).nav.eph, buf@),
            spec_same_but_eph(*old(self), *final(self)),
            spec_sf5_state(*old(state), *final(state), buf@),
    {
        let tow = getbitu(buf, 30, 17);
        proof {
            crate::bits::lemma_getbitu_bound(buf@, 30, 17);
            crate::bits::lemma_getbitu_bound(buf@, 68, 8);
            crate::bits::lemma_getbitu_bound(buf@, 76, 8);
            lemma_pow2_values();
        }
        self.nav.eph.tow = tow * 6;
        let data_id = getbitu(buf, 60, 2);
        let svid = getbitu(buf, 62, 6);
        if data_id == 1 {
            if 1 <= svid && svid <= 24 {
                let idx = (svid - 1) as usize;
                let mut a = state.almanac[idx];
                a.nav_decode_alm(buf);
                state.almanac.set(idx, a);
                proof {
                    assert(state.almanac@ =~= old(state).almanac@.update(
                        svid as int - 1,
                        Almanac::spec_alm_decoded(old(state).almanac@[svid as int - 1], buf@),
                    ));
                }
            } else if svid == 51 {
                let toas = getbitu(buf, 68, 8) * 4096;
                let week = getbitu(buf, 76, 8) + 2048;
                let mut sv: u8 = 1;
                while sv <= 24
                    invariant
                        1 <= sv <= 25,
                        state.wf(),
                        state.tow_gpst_sec == old(state).tow_gpst_sec,
                        state.updates == old(state).updates,
                        state.channels == old(state).channels,
                        state.ion_adj == old(state).ion_adj,
                        state.utc_adj == old(state).utc_adj,
                        300 <= buf@.len() * 8 <= usize::MAX,
                        forall|v: int|
                            0 <= v < sv - 1 ==> state.almanac@[v] == (Almanac {
                                svh: spec_getbitu(buf@, spec_svh5_pos(v), 6) as u32,
                                ..old(state).almanac@[v]
                            }),
                        forall|v: int|
                            sv - 1 <= v < 32 ==> state.almanac@[v] == old(state).almanac@[v],
                    decreases 25 - sv,
                {
                    let pos = svh5_pos(sv - 1);
                    let idx = (sv - 1) as usize;
                    let mut a = state.almanac[idx];
                    a.svh = getbitu(buf, pos, 6);
                    state.almanac.set(idx, a);
                    sv += 1;
                }
                let mut sv: u8 = 1;
                while sv <= 32
                    invariant
                        1 <= sv <= 33,
                        state.wf(),
                        state.tow_gpst_sec == old(state).tow_gpst_sec,
                        state.updates == old(state).updates,
                        state.channels == old(state).channels,
                        state.ion_adj == old(state).ion_adj,
                        state.utc_adj == old(state).utc_adj,
                        toas as int == spec_getbitu(buf@, 68, 8) * 4096,
                        week as int == spec_getbitu(buf@, 76, 8) + 2048,
                        forall|v: int|
                            0 <= v < sv - 1 ==> state.almanac@[v] == spec_sf5_page25_slot(
                                old(state).almanac@[v],
                                buf@,
                                v,
                            ),
                        forall|v: int|
                            sv - 1 <= v < 24 ==> state.almanac@[v] == (Almanac {
                                svh: spec_getbitu(buf@, spec_svh5_pos(v), 6) as u32,
                                ..old(state).almanac@[v]
                            }),
                        forall|v: int|
                            24 <= v < 32 && sv - 1 <= v ==> state.almanac@[v] == old(
                                state,
                            ).almanac@[v],
                    decreases 33 - sv,
                {
                    let idx = (sv - 1) as usize;
                    let mut a = state.almanac[idx];
                    a.week = week;
                    a.toas = toas;
                    state.almanac.set(idx, a);
                    sv += 1;
                }
            }
        }
    }

    /// Publishes a new time of week; one more publication is counted and
    /// the caller's update hook observes the count.
    pub fn update_gpst_time(&self, state: &mut GnssState, tow_gpst_sec: u64)
        requires
            old(state).updates < u64::MAX,
        ensures
            final(state).tow_gpst_sec == tow_gpst_sec,
            final(state).updates == old(state).updates + 1,
            final(state).almanac == old(state).almanac,
            final(state).channels == old(state).channels,
            final(state).ion_adj == old(state).ion_adj,
            final(state).utc_adj == old(state).utc_adj,
    {
        state.tow_gpst_sec = tow_gpst_sec;
        state.updates = state.updates + 1;
    }

    /// After a subframe: marks the channel when its ephemeris became
    /// complete, and once the week number is known turns the times of week,
    /// ephemeris and clock into whole GPST seconds and publishes the time.
    pub fn nav_subframe_post(&mut self, state: &mut GnssState)
        requires
            old(self).wf(),
            old(state).wf(),
            old(state).updates < u64::MAX,
            old(self).nav.eph.spec_complete() ==> old(state).spec_has_channel(old(self).sv.prn),
        ensures
            final(self).wf(),
            final(state).wf(),
            final(self).nav.eph == spec_post_eph(old(self).nav.eph, old(self).num_trk_samples),
            spec_same_but_eph(*old(self), *final(self)),
            spec_post_state(old(self).nav.eph, old(self).sv.prn, *old(state), *final(state)),
    {
        if self.nav.eph.is_complete() {
            let idx = (self.sv.prn - 1) as usize;
            let slot = state.channels[idx];
            match slot {
                Some(cs) => {
                    state.channels.set(idx, Some(ChannelState { has_eph: true, ..cs }));
                    proof {
                        assert(state.channels@ =~= old(state).channels@.update(
                            old(self).sv.prn - 1,
                            Some(
                                ChannelState {
                                    has_eph: true,
                                    ..old(state).channels@[old(self).sv.prn - 1].unwrap()
                                },
                            ),
                        ));
                    }
                },
                None => {},
            }
        }
        if self.nav.eph.week != 0 {
            let ghost wk: u64 = self.nav.eph.week as u64;
            proof {
                assert(wk * (SECS_PER_WEEK as u64) <= 0xffff_ffffu64 * 604800)
                    by (nonlinear_arith)
                    requires
                        wk <= 0xffff_ffffu64,
                        SECS_PER_WEEK == 604800,
                ;
            }
            let wsec: u64 = (self.nav.eph.week as u64) * (SECS_PER_WEEK as u64);
            self.nav.eph.tow_gpst_sec = wsec + self.nav.eph.tow as u64;
            self.nav.eph.toe_gpst_sec = wsec + self.nav.eph.toes as u64;
            self.nav.eph.toc_gpst_sec = wsec + self.nav.eph.toc as u64;
            self.nav.eph.ts_msec = self.num_trk_samples;
            let t = self.nav.eph.tow_gpst_sec;
            self.update_gpst_time(state, t);
        }
    }

    /// Decodes one parity-checked subframe buffer: reads the telemetry
    /// word, dispatches on the subframe id, and runs the post step.
    /// Returns the subframe id.
    pub fn nav_decode_lnav_subframe(&mut self, buf: &[u8], state: &mut GnssState) -> (id: u32)
        requires
            old(self).wf(),
            old(state).wf(),
            old(state).updates < u64::MAX,
            300 <= buf@.len() * 8 <= usize::MAX,
            spec_getbitu(buf@, 0, 8) == 0x8b,
            spec_getbitu(buf@, 58, 2) == 0,
            old(state).spec_has_channel(old(self).sv.prn),
        ensures
            final(self).wf(),
            final(state).wf(),
            id == spec_getbitu(buf@, 49, 3),
            final(self).nav.eph == spec_post_eph(
                spec_dispatch_eph(spec_with_tlm(old(self).nav.eph, buf@), buf@),
                old(self).num_trk_samples,
            ),
            spec_same_but_eph(*old(self), *final(self)),
            spec_subframe_state_rel(
                spec_dispatch_eph(spec_with_tlm(old(self).nav.eph, buf@), buf@),
                old(self).sv.prn,
                *old(state),
                *final(state),
                buf@,
            ),
    {
        let tlm = getbitu(buf, 8, 14);
        self.nav.eph.tlm = tlm;
        let subframe_id = getbitu(buf, 49, 3);
        match subframe_id {
            1 => self.nav_decode_lnav_subframe1(buf),
            2 => self.nav_decode_lnav_subframe2(buf),
            3 => self.nav_decode_lnav_subframe3(buf),
            4 => self.nav_decode_lnav_subframe4(buf, state),
            5 => self.nav_decode_lnav_subframe5(buf, state),
            _ => {},
        }
        let ghost smid = *state;
        self.nav_subframe_post(state);
        proof {
            assert(spec_dispatch_state(*old(state), smid, buf@));
            assert(spec_post_state(
                spec_dispatch_eph(spec_with_tlm(old(self).nav.eph, buf@), buf@),
                old(self).sv.prn,
                smid,
                *state,
            ));
        }
        subframe_id
    }

    /// One frame decode attempt on the current window: extract and
    /// polarity-correct the 300 symbols, check parity, and either apply
    /// the subframe or reset frame synchronization and count the error.
    #[verifier::rlimit(100)]
    pub fn nav_decode_lnav(&mut self, sync: SyncState, state: &mut GnssState)
        requires
            old(self).wf(),
            old(state).wf(),
            old(state).updates < u64::MAX,
            old(self).nav.count_parity_err < usize::MAX,
            sync == SyncState::Normal || sync == SyncState::Reversed,
            spec_frame_sync_state(old(self).nav.bits@, spec_preamble()) == sync,
            old(state).spec_has_channel(old(self).sv.prn),
        ensures
            final(self).wf(),
            final(state).wf(),
            spec_decode_lnav_rel(*old(self), *final(self), *old(state), *final(state), sync),
    {
        let rev: u8 = match sync {
            SyncState::Normal => 0,
            _ => 1,
        };
        let l = self.nav.bits.len();
        let mut bits: Vec<u8> = Vec::new();
        let mut i: usize = 0;
        while i < 300
            invariant
                i <= 300,
                l == SDR_MAX_NSYM,
                self == old(self),
                rev <= 1,
                forall|k: int| 0 <= k < SDR_MAX_NSYM ==> #[trigger] self.nav.bits@[k] <= 1,
                self.nav.bits@.len() == SDR_MAX_NSYM,
                bits@.len() == i,
                forall|k: int|
                    0 <= k < i ==> bits@[k] == (self.nav.bits@[l - 308 + k] ^ rev) && #[trigger]
                    bits@[k] <= 1,
            decreases 300 - i,
        {
            let b = self.nav.bits[l - 308 + i] ^ rev;
            proof {
                let x = self.nav.bits@[l - 308 + i];
                assert(x <= 1 && rev <= 1 ==> (x ^ rev) <= 1) by (bit_vector);
            }
            bits.push(b);
            i += 1;
        }
        proof {
            assert(bits@ =~= spec_window(old(self).nav.bits@, rev));
        }
        let mut nav_data: Vec<u8> = Vec::new();
        let mut i: usize = 0;
        while i < 300
            invariant
                i <= 300,
                nav_data@.len() == i,
            decreases 300 - i,
        {
            nav_data.push(0);
            i += 1;
        }
        let ghost w = spec_window(old(self).nav.bits@, rev);
        if Self::nav_test_lnav_parity(&bits, &mut nav_data) {
            self.nav.nav_sync = self.num_trk_samples;
            self.nav.sync_state = sync;
            proof {
                lemma_preamble_and_zero(nav_data@, w, old(self).nav.bits@, sync);
            }
            let _id = self.nav_decode_lnav_subframe(nav_data.as_slice(), state);
            proof {
                let navd = nav_data@;
                assert(spec_decoded_buf(navd, w));
                assert(self.nav.eph == spec_post_eph(
                    spec_dispatch_eph(spec_with_tlm(old(self).nav.eph, navd), navd),
                    old(self).num_trk_samples,
                ));
                assert(spec_subframe_state_rel(
                    spec_dispatch_eph(spec_with_tlm(old(self).nav.eph, navd), navd),
                    old(self).sv.prn,
                    *old(state),
                    *state,
                    navd,
                ));
                assert(spec_lnav_parity_ok(w));
                assert(spec_decode_lnav_ok(*old(self), *self, *old(state), *state, sync, w));
            }
        } else {
            self.nav.nav_sync = 0;
            self.nav.sync_state = SyncState::Normal;
            self.nav.count_parity_err = self.nav.count_parity_err + 1;
            proof {
                assert(!spec_lnav_parity_ok(w));
                assert(spec_decode_lnav_fail(*old(self), *self, *old(state), *state));
            }
        }
    }

    /// Each SBAS frame is only noted; SBAS payloads are out of scope.
    pub fn nav_decode_sbas(&mut self)
        ensures
            *final(self) == *old(self),
    {
    }

    /// The per-millisecond navigation step: demodulate a symbol if one is
    /// due, then run the frame synchronizer on the updated FIFO.
    pub fn nav_decode(&mut self, state: &mut GnssState)
        requires
            old(self).wf(),
            old(state).wf(),
            old(state).updates < u64::MAX,
            old(self).nav.count_parity_err < usize::MAX,
            old(self).num_trk_samples >= 1,
            !(120 <= old(self).sv.prn <= 158) ==> old(state).spec_has_channel(old(self).sv.prn),
        ensures
            final(self).wf(),
            final(state).wf(),
            120 <= old(self).sv.prn <= 158 ==> *final(self) == *old(self) && *final(state) == *old(
                state,
            ),
            !(120 <= old(self).sv.prn <= 158) ==> exists|cmid: Channel, emitted: bool|
                #![auto]
                spec_sync_symbol_rel(*old(self), cmid, emitted, 20) && (if !emitted {
                    *final(self) == cmid && *final(state) == *old(state)
                } else {
                    spec_frame_step_rel(cmid, *final(self), *old(state), *final(state))
                }),
    {
        if self.sv.prn >= 120 && self.sv.prn <= 158 {
            self.nav_decode_sbas();
            return ;
        }
        let emitted = self.nav_sync_symbol(20);
        let ghost cmid = *self;
        if !emitted {
            return ;
        }
        let mut pre: Vec<u8> = Vec::new();
        pre.push(1);
        pre.push(0);
        pre.push(0);
        pre.push(0);
        pre.push(1);
        pre.push(0);
        pre.push(1);
        pre.push(1);
        proof {
            assert(pre@ =~= spec_preamble());
        }
        if self.nav.nav_sync > 0 {
            if self.num_trk_samples - self.nav.nav_sync == 300 * 20 {
                let sync = self.nav_get_frame_sync_state(pre.as_slice());
                if sync == self.nav.sync_state {
                    self.nav_decode_lnav(sync, state);
                }
            } else if self.num_trk_samples - self.nav.nav_sync > 300 * 20 {
                self.nav.nav_sync = 0;
                self.nav.bit_sync = 0;
                self.nav.sync_state = SyncState::Normal;
            }
        } else if self.num_trk_samples >= 20 * 308 + 1000 {
            let sync = self.nav_get_frame_sync_state(pre.as_slice());
            if !(sync == SyncState::NoSync) {
                self.nav_decode_lnav(sync, state);
            }
        }
    }
}

/// The channel fields a subframe decode leaves alone.
pub open spec fn spec_same_but_eph(c0: Channel, c1: Channel) -> bool {
    &&& c1.sv == c0.sv
    &&& c1.num_trk_samples == c0.num_trk_samples
    &&& c1.hist == c0.hist
    &&& c1.nav.bits == c0.nav.bits
    &&& c1.nav.bit_sync == c0.nav.bit_sync
    &&& c1.nav.nav_sync == c0.nav.nav_sync
    &&& c1.nav.sync_state == c0.nav.sync_state
    &&& c1.nav.count_parity_err == c0.nav.count_parity_err
}

/// A buffer that passed the parity check starts with the preamble byte and
/// has zero bits in the reserved slot the decoders rely on.
pub proof fn lemma_preamble_and_zero(navd: Seq<u8>, w: Seq<u8>, bits: Seq<u8>, sync: SyncState)
    requires
        spec_decoded_buf(navd, w),
        bits.len() == SDR_MAX_NSYM,
        w == spec_window(
            bits,
            if sync == SyncState::Normal {
                0u8
            } else {
                1u8
            },
        ),
        sync == SyncState::Normal || sync == SyncState::Reversed,
        spec_frame_sync_state(bits, spec_preamble()) == sync,
        forall|i: int| 0 <= i < bits.len() ==> #[trigger] bits[i] <= 1,
    ensures
        spec_getbitu(navd, 0, 8) == 0x8b,
        spec_getbitu(navd, 58, 2) == 0,
{
    let l = bits.len() as int;
    let pre = spec_preamble();
    let beg = bits.subrange(l - 308, l - 300);
    assert forall|i: int| 0 <= i < 8 implies w[i] == pre[i] by {
        assert(beg[i] == bits[l - 308 + i]);
        let x = bits[l - 308 + i];
        let p = pre[i];
        if sync == SyncState::Normal {
            assert(beg == pre);
            assert(x == p);
            assert(x ^ 0 == x) by (bit_vector);
        } else {
            assert(spec_opposed(pre, beg));
            assert(x == p ^ 1);
            assert((p ^ 1) ^ 1 == p) by (bit_vector);
        }
    }
    assert forall|p: int| 0 <= p < 8 implies nth_bit(navd, p) == ((0x8bu32 >> ((8 - 1 - (p
        - 0)) as u32)) & 1u32) by {
        assert(nth_bit(navd, p) == spec_data_bit(w, p));
        assert(p / 30 == 0);
        assert(spec_data_bit(w, p) == (w[p] as u32) & 1u32);
        let x = w[p];
        assert((x <= 1 ==> ((x as u32) & 1u32) == x as u32) && (0x8bu32 >> 7u32) & 1u32 == 1 && (
        0x8bu32 >> 6u32) & 1u32 == 0 && (0x8bu32 >> 5u32) & 1u32 == 0 && (0x8bu32 >> 4u32) & 1u32
            == 0 && (0x8bu32 >> 3u32) & 1u32 == 1 && (0x8bu32 >> 2u32) & 1u32 == 0 && (0x8bu32
            >> 1u32) & 1u32 == 1 && (0x8bu32 >> 0u32) & 1u32 == 1) by (bit_vector);
    }
    lemma_pow2_values();
    crate::bits::lemma_getbitu_from_bits(navd, 0, 8, 0x8b);
    assert forall|p: int| 58 <= p < 60 implies nth_bit(navd, p) == ((0u32 >> ((2 - 1 - (p
        - 58)) as u32)) & 1u32) by {
        assert(p % 30 >= 24);
        assert(nth_bit(navd, p) == 0);
        let s = (2 - 1 - (p - 58)) as u32;
        assert((0u32 >> s) & 1u32 == 0) by (bit_vector);
    }
    crate::bits::lemma_getbitu_from_bits(navd, 58, 2, 0);
}


/// Two symbol streams that agree on a prefix load the register alike.
proof fn lemma_raw_prefix(b1: Seq<u8>, b2: Seq<u8>, n: nat)
    requires
        n <= b1.len(),
        n <= b2.len(),
        forall|k: int| 0 <= k < n ==> b1[k] == b2[k],
    ensures
        spec_raw(b1, n) == spec_raw(b2, n),
    decreases n,
{
    if n > 0 {
        lemma_raw_prefix(b1, b2, (n - 1) as nat);
    }
}

/// Flipping one symbol flips exactly one register bit.
proof fn lemma_raw_flip(b1: Seq<u8>, b2: Seq<u8>, pos: int, n: nat)
    requires
        b1.len() == b2.len(),
        0 <= pos < n <= b1.len(),
        n - 1 - pos <= 31,
        forall|k: int| 0 <= k < b1.len() ==> #[trigger] b1[k] <= 1,
        b2 == b1.update(pos, (b1[pos] ^ 1) as u8),
    ensures
        spec_raw(b2, n) == spec_raw(b1, n) ^ (1u32 << ((n - 1 - pos) as u32)),
    decreases n,
{
    let x1 = spec_raw(b1, (n - 1) as nat);
    let x2 = spec_raw(b2, (n - 1) as nat);
    let c1 = b1[n as int - 1] as u32;
    let c2 = b2[n as int - 1] as u32;
    if n - 1 == pos {
        lemma_raw_prefix(b1, b2, (n - 1) as nat);
        assert(((x1 << 1u32) | c2) == ((x1 << 1u32) | c1) ^ (1u32 << 0u32)) by (bit_vector)
            requires
                c1 <= 1,
                c2 == c1 ^ 1,
        ;
    } else {
        lemma_raw_flip(b1, b2, pos, (n - 1) as nat);
        let sp: u32 = (n - 2 - pos) as u32;
        assert((((x1 ^ (1u32 << sp)) << 1u32) | c1) == ((x1 << 1u32) | c1) ^ (1u32 << ((sp
            + 1) as u32))) by (bit_vector)
            requires
                sp <= 30,
                c1 <= 1,
        ;
    }
}

/// A valid subframe cannot absorb a single flipped symbol: whichever of
/// the 300 symbols is complemented, at least one of the sixty parity
/// equations breaks.
pub proof fn lemma_parity_rejects_single_flip(bits: Seq<u8>, flipped: Seq<u8>, i: int)
    requires
        bits.len() == 300,
        forall|k: int| 0 <= k < 300 ==> #[trigger] bits[k] <= 1,
        0 <= i < 300,
        flipped == bits.update(i, (bits[i] ^ 1) as u8),
        spec_lnav_parity_ok(bits),
    ensures
        !spec_lnav_parity_ok(flipped),
{
    let w = i / 30;
    let t = i % 30;
    vstd::arithmetic::div_mod::lemma_fundamental_div_mod(i, 30);
    assert(0 <= t < 30 && 0 <= w < 10) by (nonlinear_arith)
        requires
            0 <= i < 300,
            t == i % 30,
            w == i / 30,
    ;
    let n = (30 * (w + 1)) as nat;
    let raw1 = spec_raw(bits, n);
    let raw2 = spec_raw(flipped, n);
    lemma_raw_flip(bits, flipped, i, n);
    let sb: u32 = (29 - t) as u32;
    assert(raw2 == raw1 ^ (1u32 << sb));
    let d1 = spec_word(bits, w);
    let d2 = spec_word(flipped, w);
    assert(d1 == spec_compl(raw1));
    assert(d2 == spec_compl(raw2));
    assert(spec_word_ok(bits, w));
    // the complement decision is the same on both sides, so the flipped
    // bit survives into the corrected word
    assert(d2 == d1 ^ (1u32 << sb)) by (bit_vector)
        requires
            sb <= 29,
            raw2 == raw1 ^ (1u32 << sb),
            d1 == (if raw1 & 0x4000_0000u32 != 0 {
                raw1 ^ 0x3FFF_FFC0u32
            } else {
                raw1
            }),
            d2 == (if raw2 & 0x4000_0000u32 != 0 {
                raw2 ^ 0x3FFF_FFC0u32
            } else {
                raw2
            }),
    ;
    if t <= 23 {
        let sm: u32 = (23 - t) as u32;
        assert(sm == sb - 6 && 6 <= sb <= 29);
        assert(((0x2EC7CD2u32 >> sm) & 1) == 1 || ((0x1763E69u32 >> sm) & 1) == 1 || ((
        0x2BB1F34u32 >> sm) & 1) == 1 || ((0x15D8F9Au32 >> sm) & 1) == 1 || ((0x1AEC7CDu32
            >> sm) & 1) == 1 || ((0x22DEA27u32 >> sm) & 1) == 1) by (bit_vector)
            requires
                sm <= 23,
        ;
        let j: int = if (spec_mask(0) >> sm) & 1 == 1 {
            0
        } else if (spec_mask(1) >> sm) & 1 == 1 {
            1
        } else if (spec_mask(2) >> sm) & 1 == 1 {
            2
        } else if (spec_mask(3) >> sm) & 1 == 1 {
            3
        } else if (spec_mask(4) >> sm) & 1 == 1 {
            4
        } else {
            5
        };
        let m = spec_mask(j);
        let sj: u32 = (5 - j) as u32;
        assert((m >> sm) & 1 == 1);
        let v1 = (d1 >> 6u32) & m;
        let v2 = (d2 >> 6u32) & m;
        assert(v2 == v1 ^ (1u32 << sm) && (d2 >> sj) & 1u32 == (d1 >> sj) & 1u32)
            by (bit_vector)
            requires
                d2 == d1 ^ (1u32 << sb),
                sb == sm + 6,
                sm <= 23,
                sj <= 5,
                (m >> sm) & 1 == 1,
                v1 == (d1 >> 6u32) & m,
                v2 == (d2 >> 6u32) & m,
        ;
        crate::bits::lemma_parity_flip(v1, sm);
        assert(spec_word_check(bits, w, j));
        assert(spec_parity(v2) != (d2 >> sj) & 1u32);
        assert(!spec_word_check(flipped, w, j));
        assert(!spec_word_ok(flipped, w));
    } else {
        let j: int = t - 24;
        let sj: u32 = (5 - j) as u32;
        assert(sj == sb);
        let m = spec_mask(j);
        let v1 = (d1 >> 6u32) & m;
        let v2 = (d2 >> 6u32) & m;
        assert(v2 == v1 && (d2 >> sj) & 1u32 == ((d1 >> sj) & 1u32) ^ 1 && ((d1 >> sj) & 1u32)
            <= 1 && ((d2 >> sj) & 1u32) <= 1) by (bit_vector)
            requires
                d2 == d1 ^ (1u32 << sb),
                sj == sb,
                sb <= 5,
                v1 == (d1 >> 6u32) & m,
                v2 == (d2 >> 6u32) & m,
        ;
        assert(spec_word_check(bits, w, j));
        let x = (d1 >> sj) & 1u32;
        assert(x <= 1 ==> x ^ 1 != x) by (bit_vector);
        assert(spec_parity(v2) != (d2 >> sj) & 1u32);
        assert(!spec_word_check(flipped, w, j));
        assert(!spec_word_ok(flipped, w));
    }
}

} // verus!
