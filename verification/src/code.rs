//! GPS L1 C/A PRN (Gold) code generation.
//!
//! Each satellite's 1023-chip code is the product of two maximal-length
//! sequences from ten-cell shift registers, the second one delayed by a
//! published per-PRN amount.  Chips are bipolar: every value is -1 or +1.

use vstd::prelude::*;
use vstd::string::StringSliceAdditionalSpecFns;

verus! {

/// Chips in one L1 C/A code period.
pub const L1CA_CODE_LEN: usize = 1023;

/// Both registers start with every cell holding -1 (the bipolar image of
/// the all-ones state).
pub open spec fn lfsr_init() -> Seq<int> {
    Seq::new(10, |i: int| -1)
}

/// One step of the G1 register: the product of cells 3 and 10 enters at
/// cell 1 while the rest shift right.
pub open spec fn g1_next(r: Seq<int>) -> Seq<int> {
    seq![r[2] * r[9]] + r.subrange(0, 9)
}

/// One step of the G2 register: the product of cells 2, 3, 6, 8, 9 and 10
/// enters at cell 1 while the rest shift right.
pub open spec fn g2_next(r: Seq<int>) -> Seq<int> {
    seq![r[1] * r[2] * r[5] * r[7] * r[8] * r[9]] + r.subrange(0, 9)
}

/// The G1 register before chip `i` is produced.
pub open spec fn g1_reg(i: nat) -> Seq<int>
    decreases i,
{
    if i == 0 {
        lfsr_init()
    } else {
        g1_next(g1_reg((i - 1) as nat))
    }
}

/// The G2 register before chip `i` is produced.
pub open spec fn g2_reg(i: nat) -> Seq<int>
    decreases i,
{
    if i == 0 {
        lfsr_init()
    } else {
        g2_next(g2_reg((i - 1) as nat))
    }
}

/// Chip `i` of the G1 sequence: the last cell of the register.
pub open spec fn g1_chip(i: int) -> int {
    g1_reg(i as nat)[9]
}

/// Chip `i` of the G2 sequence.
pub open spec fn g2_chip(i: int) -> int {
    g2_reg(i as nat)[9]
}

/// Chip `i` of the C/A code of `prn`: minus the product of the G1 chip and
/// the G2 chip taken `spec_g2_delay(prn)` chips earlier, cyclically.
pub open spec fn ca_chip(prn: int, i: int) -> int {
    -(g1_chip(i) * g2_chip((i + 1023 - spec_g2_delay(prn)) % 1023))
}

/// The published G2 delay, in chips, for PRN 1 through 210 (GPS satellites
/// are 1 through 32; the rest are QZSS and other extended slots).
#[verifier::opaque]
pub open spec fn spec_g2_delay(prn: int) -> int {
    if prn == 1 {
        5
    } else if prn == 2 {
        6
    } else if prn == 3 {
        7
    } else if prn == 4 {
        8
    } else if prn == 5 {
        17
    } else if prn == 6 {
        18
    } else if prn == 7 {
        139
    } else if prn == 8 {
        140
    } else if prn == 9 {
        141
    } else if prn == 10 {
        251
    } else if prn == 11 {
        252
    } else if prn == 12 {
        254
    } else if prn == 13 {
        255
    } else if prn == 14 {
        256
    } else if prn == 15 {
        257
    } else if prn == 16 {
        258
    } else if prn == 17 {
        469
    } else if prn == 18 {
        470
    } else if prn == 19 {
        471
    } else if prn == 20 {
        472
    } else if prn == 21 {
        473
    } else if prn == 22 {
        474
    } else if prn == 23 {
        509
    } else if prn == 24 {
        512
    } else if prn == 25 {
        513
    } else if prn == 26 {
        514
    } else if prn == 27 {
        515
    } else if prn == 28 {
        516
    } else if prn == 29 {
        859
    } else if prn == 30 {
        860
    } else if prn == 31 {
        861
    } else if prn == 32 {
        862
    } else if prn == 33 {
        863
    } else if prn == 34 {
        950
    } else if prn == 35 {
        947
    } else if prn == 36 {
        948
    } else if prn == 37 {
        950
    } else if prn == 38 {
        67
    } else if prn == 39 {
        103
    } else if prn == 40 {
        91
    } else if prn == 41 {
        19
    } else if prn == 42 {
        679
    } else if prn == 43 {
        225
    } else if prn == 44 {
        625
    } else if prn == 45 {
        946
    } else if prn == 46 {
        638
    } else if prn == 47 {
        161
    } else if prn == 48 {
        1001
    } else if prn == 49 {
        554
    } else if prn == 50 {
        280
    } else if prn == 51 {
        710
    } else if prn == 52 {
        709
    } else if prn == 53 {
        775
    } else if prn == 54 {
        864
    } else if prn == 55 {
        558
    } else if prn == 56 {
        220
    } else if prn == 57 {
        397
    } else if prn == 58 {
        55
    } else if prn == 59 {
        898
    } else if prn == 60 {
        759
    } else if prn == 61 {
        367
    } else if prn == 62 {
        299
    } else if prn == 63 {
        1018
    } else if prn == 64 {
        729
    } else if prn == 65 {
        695
    } else if prn == 66 {
        780
    } else if prn == 67 {
        801
    } else if prn == 68 {
        788
    } else if prn == 69 {
        732
    } else if prn == 70 {
        34
    } else if prn == 71 {
        320
    } else if prn == 72 {
        327
    } else if prn == 73 {
        389
    } else if prn == 74 {
        407
    } else if prn == 75 {
        525
    } else if prn == 76 {
        405
    } else if prn == 77 {
        221
    } else if prn == 78 {
        761
    } else if prn == 79 {
        260
    } else if prn == 80 {
        326
    } else if prn == 81 {
        955
    } else if prn == 82 {
        653
    } else if prn == 83 {
        699
    } else if prn == 84 {
        422
    } else if prn == 85 {
        188
    } else if prn == 86 {
        438
    } else if prn == 87 {
        959
    } else if prn == 88 {
        539
    } else if prn == 89 {
        879
    } else if prn == 90 {
        677
    } else if prn == 91 {
        586
    } else if prn == 92 {
        153
    } else if prn == 93 {
        792
    } else if prn == 94 {
        814
    } else if prn == 95 {
        446
    } else if prn == 96 {
        264
    } else if prn == 97 {
        1015
    } else if prn == 98 {
        278
    } else if prn == 99 {
        536
    } else if prn == 100 {
        819
    } else if prn == 101 {
        156
    } else if prn == 102 {
        957
    } else if prn == 103 {
        159
    } else if prn == 104 {
        712
    } else if prn == 105 {
        885
    } else if prn == 106 {
        461
    } else if prn == 107 {
        248
    } else if prn == 108 {
        713
    } else if prn == 109 {
        126
    } else if prn == 110 {
        807
    } else if prn == 111 {
        279
    } else if prn == 112 {
        122
    } else if prn == 113 {
        197
    } else if prn == 114 {
        693
    } else if prn == 115 {
        632
    } else if prn == 116 {
        771
    } else if prn == 117 {
        467
    } else if prn == 118 {
        647
    } else if prn == 119 {
        203
    } else if prn == 120 {
        145
    } else if prn == 121 {
        175
    } else if prn == 122 {
        52
    } else if prn == 123 {
        21
    } else if prn == 124 {
        237
    } else if prn == 125 {
        235
    } else if prn == 126 {
        886
    } else if prn == 127 {
        657
    } else if prn == 128 {
        634
    } else if prn == 129 {
        762
    } else if prn == 130 {
        355
    } else if prn == 131 {
        1012
    } else if prn == 132 {
        176
    } else if prn == 133 {
        603
    } else if prn == 134 {
        130
    } else if prn == 135 {
        359
    } else if prn == 136 {
        595
    } else if prn == 137 {
        68
    } else if prn == 138 {
        386
    } else if prn == 139 {
        797
    } else if prn == 140 {
        456
    } else if prn == 141 {
        499
    } else if prn == 142 {
        883
    } else if prn == 143 {
        307
    } else if prn == 144 {
        127
    } else if prn == 145 {
        211
    } else if prn == 146 {
        121
    } else if prn == 147 {
        118
    } else if prn == 148 {
        163
    } else if prn == 149 {
        628
    } else if prn == 150 {
        853
    } else if prn == 151 {
        484
    } else if prn == 152 {
        289
    } else if prn == 153 {
        811
    } else if prn == 154 {
        202
    } else if prn == 155 {
        1021
    } else if prn == 156 {
        463
    } else if prn == 157 {
        568
    } else if prn == 158 {
        904
    } else if prn == 159 {
        670
    } else if prn == 160 {
        230
    } else if prn == 161 {
        911
    } else if prn == 162 {
        684
    } else if prn == 163 {
        309
    } else if prn == 164 {
        644
    } else if prn == 165 {
        932
    } else if prn == 166 {
        12
    } else if prn == 167 {
        314
    } else if prn == 168 {
        891
    } else if prn == 169 {
        212
    } else if prn == 170 {
        185
    } else if prn == 171 {
        675
    } else if prn == 172 {
        503
    } else if prn == 173 {
        150
    } else if prn == 174 {
        395
    } else if prn == 175 {
        345
    } else if prn == 176 {
        846
    } else if prn == 177 {
        798
    } else if prn == 178 {
        992
    } else if prn == 179 {
        357
    } else if prn == 180 {
        995
    } else if prn == 181 {
        877
    } else if prn == 182 {
        112
    } else if prn == 183 {
        144
    } else if prn == 184 {
        476
    } else if prn == 185 {
        193
    } else if prn == 186 {
        109
    } else if prn == 187 {
        445
    } else if prn == 188 {
        291
    } else if prn == 189 {
        87
    } else if prn == 190 {
        399
    } else if prn == 191 {
        292
    } else if prn == 192 {
        901
    } else if prn == 193 {
        339
    } else if prn == 194 {
        208
    } else if prn == 195 {
        711
    } else if prn == 196 {
        189
    } else if prn == 197 {
        263
    } else if prn == 198 {
        537
    } else if prn == 199 {
        663
    } else if prn == 200 {
        942
    } else if prn == 201 {
        173
    } else if prn == 202 {
        900
    } else if prn == 203 {
        30
    } else if prn == 204 {
        500
    } else if prn == 205 {
        935
    } else if prn == 206 {
        556
    } else if prn == 207 {
        373
    } else if prn == 208 {
        85
    } else if prn == 209 {
        652
    } else if prn == 210 {
        310
    } else {
        0
    }
}

/// Looks the delay up; the table is part of the interface specification.
pub fn g2_delay(prn: u8) -> (d: usize)
    requires
        1 <= prn <= 210,
    ensures
        d as int == spec_g2_delay(prn as int),
        5 <= d <= 1021,
{
    proof {
        reveal(spec_g2_delay);
    }
    match prn {
        1 => 5,
        2 => 6,
        3 => 7,
        4 => 8,
        5 => 17,
        6 => 18,
        7 => 139,
        8 => 140,
        9 => 141,
        10 => 251,
        11 => 252,
        12 => 254,
        13 => 255,
        14 => 256,
        15 => 257,
        16 => 258,
        17 => 469,
        18 => 470,
        19 => 471,
        20 => 472,
        21 => 473,
        22 => 474,
        23 => 509,
        24 => 512,
        25 => 513,
        26 => 514,
        27 => 515,
        28 => 516,
        29 => 859,
        30 => 860,
        31 => 861,
        32 => 862,
        33 => 863,
        34 => 950,
        35 => 947,
        36 => 948,
        37 => 950,
        38 => 67,
        39 => 103,
        40 => 91,
        41 => 19,
        42 => 679,
        43 => 225,
        44 => 625,
        45 => 946,
        46 => 638,
        47 => 161,
        48 => 1001,
        49 => 554,
        50 => 280,
        51 => 710,
        52 => 709,
        53 => 775,
        54 => 864,
        55 => 558,
        56 => 220,
        57 => 397,
        58 => 55,
        59 => 898,
        60 => 759,
        61 => 367,
        62 => 299,
        63 => 1018,
        64 => 729,
        65 => 695,
        66 => 780,
        67 => 801,
        68 => 788,
        69 => 732,
        70 => 34,
        71 => 320,
        72 => 327,
        73 => 389,
        74 => 407,
        75 => 525,
        76 => 405,
        77 => 221,
        78 => 761,
        79 => 260,
        80 => 326,
        81 => 955,
        82 => 653,
        83 => 699,
        84 => 422,
        85 => 188,
        86 => 438,
        87 => 959,
        88 => 539,
        89 => 879,
        90 => 677,
        91 => 586,
        92 => 153,
        93 => 792,
        94 => 814,
        95 => 446,
        96 => 264,
        97 => 1015,
        98 => 278,
        99 => 536,
        100 => 819,
        101 => 156,
        102 => 957,
        103 => 159,
        104 => 712,
        105 => 885,
        106 => 461,
        107 => 248,
        108 => 713,
        109 => 126,
        110 => 807,
        111 => 279,
        112 => 122,
        113 => 197,
        114 => 693,
        115 => 632,
        116 => 771,
        117 => 467,
        118 => 647,
        119 => 203,
        120 => 145,
        121 => 175,
        122 => 52,
        123 => 21,
        124 => 237,
        125 => 235,
        126 => 886,
        127 => 657,
        128 => 634,
        129 => 762,
        130 => 355,
        131 => 1012,
        132 => 176,
        133 => 603,
        134 => 130,
        135 => 359,
        136 => 595,
        137 => 68,
        138 => 386,
        139 => 797,
        140 => 456,
        141 => 499,
        142 => 883,
        143 => 307,
        144 => 127,
        145 => 211,
        146 => 121,
        147 => 118,
        148 => 163,
        149 => 628,
        150 => 853,
        151 => 484,
        152 => 289,
        153 => 811,
        154 => 202,
        155 => 1021,
        156 => 463,
        157 => 568,
        158 => 904,
        159 => 670,
        160 => 230,
        161 => 911,
        162 => 684,
        163 => 309,
        164 => 644,
        165 => 932,
        166 => 12,
        167 => 314,
        168 => 891,
        169 => 212,
        170 => 185,
        171 => 675,
        172 => 503,
        173 => 150,
        174 => 395,
        175 => 345,
        176 => 846,
        177 => 798,
        178 => 992,
        179 => 357,
        180 => 995,
        181 => 877,
        182 => 112,
        183 => 144,
        184 => 476,
        185 => 193,
        186 => 109,
        187 => 445,
        188 => 291,
        189 => 87,
        190 => 399,
        191 => 292,
        192 => 901,
        193 => 339,
        194 => 208,
        195 => 711,
        196 => 189,
        197 => 263,
        198 => 537,
        199 => 663,
        200 => 942,
        201 => 173,
        202 => 900,
        203 => 30,
        204 => 500,
        205 => 935,
        206 => 556,
        207 => 373,
        208 => 85,
        209 => 652,
        210 => 310,
        _ => 0,
    }
}

/// A well-formed register: ten cells, each -1 or +1.
pub open spec fn reg_ok(r: Seq<int>) -> bool {
    r.len() == 10 && forall|j: int| 0 <= j < 10 ==> r[j] == -1 || r[j] == 1
}

proof fn lemma_sign_mul(a: int, b: int)
    by (nonlinear_arith)
    requires
        a == -1 || a == 1,
        b == -1 || b == 1,
    ensures
        a * b == (if a == b { 1int } else { -1int }),
{
}

proof fn lemma_reg_ok(i: nat)
    ensures
        reg_ok(g1_reg(i)),
        reg_ok(g2_reg(i)),
    decreases i,
{
    if i > 0 {
        lemma_reg_ok((i - 1) as nat);
        let r1 = g1_reg((i - 1) as nat);
        let r2 = g2_reg((i - 1) as nat);
        lemma_sign_mul(r1[2], r1[9]);
        lemma_sign_mul(r2[1], r2[2]);
        lemma_sign_mul(r2[1] * r2[2], r2[5]);
        lemma_sign_mul(r2[1] * r2[2] * r2[5], r2[7]);
        lemma_sign_mul(r2[1] * r2[2] * r2[5] * r2[7], r2[8]);
        lemma_sign_mul(r2[1] * r2[2] * r2[5] * r2[7] * r2[8], r2[9]);
        assert(reg_ok(g1_next(r1)));
        assert(reg_ok(g2_next(r2)));
    }
}

/// The bipolar image of a register held in executable form.
pub open spec fn view_int(s: Seq<i8>) -> Seq<int> {
    s.map_values(|v: i8| v as int)
}

/// Multiplies two bipolar values without leaving {-1, +1}.
fn mul_sign(a: i8, b: i8) -> (r: i8)
    requires
        a == -1 || a == 1,
        b == -1 || b == 1,
    ensures
        r as int == (a as int) * (b as int),
        r == -1 || r == 1,
{
    proof {
        lemma_sign_mul(a as int, b as int);
    }
    if a == b {
        1
    } else {
        -1
    }
}

pub struct Code {}

impl Code {
    /// Generates the 1023-chip bipolar C/A code of one PRN.
    #[verifier::rlimit(100)]
    fn gen_l1ca_code(prn: u8) -> (g: Vec<i8>)
        requires
            1 <= prn <= 210,
        ensures
            g@.len() == L1CA_CODE_LEN,
            forall|i: int| 0 <= i < L1CA_CODE_LEN ==> g@[i] as int == ca_chip(prn as int, i),
            forall|i: int| 0 <= i < L1CA_CODE_LEN ==> g@[i] == -1 || g@[i] == 1,
    {
        let mut r1: Vec<i8> = Vec::new();
        let mut r2: Vec<i8> = Vec::new();
        let mut k: usize = 0;
        while k < 10
            invariant
                k <= 10,
                r1@.len() == k,
                r2@.len() == k,
                forall|j: int| 0 <= j < k ==> r1@[j] == -1 && r2@[j] == -1,
            decreases 10 - k,
        {
            r1.push(-1);
            r2.push(-1);
            k += 1;
        }
        proof {
            assert(view_int(r1@) =~= g1_reg(0));
            assert(view_int(r2@) =~= g2_reg(0));
        }
        let mut g1: Vec<i8> = Vec::new();
        let mut g2: Vec<i8> = Vec::new();
        let mut i: usize = 0;
        while i < 1023
            invariant
                i <= 1023,
                r1@.len() == 10,
                r2@.len() == 10,
                view_int(r1@) == g1_reg(i as nat),
                view_int(r2@) == g2_reg(i as nat),
                g1@.len() == i,
                g2@.len() == i,
                forall|m: int| 0 <= m < i ==> g1@[m] as int == g1_chip(m),
                forall|m: int| 0 <= m < i ==> g2@[m] as int == g2_chip(m),
            decreases 1023 - i,
        {
            proof {
                lemma_reg_ok(i as nat);
                assert forall|j: int| 0 <= j < 10 implies (r1@[j] == -1 || r1@[j] == 1) && (r2@[j]
                    == -1 || r2@[j] == 1) by {
                    assert(view_int(r1@)[j] == r1@[j] as int);
                    assert(view_int(r2@)[j] == r2@[j] as int);
                }
                assert(view_int(r1@)[9] == r1@[9] as int);
                assert(view_int(r2@)[9] == r2@[9] as int);
            }
            g1.push(r1[9]);
            g2.push(r2[9]);
            let c1 = mul_sign(r1[2], r1[9]);
            let c2 = mul_sign(
                mul_sign(mul_sign(mul_sign(mul_sign(r2[1], r2[2]), r2[5]), r2[7]), r2[8]),
                r2[9],
            );
            let mut n1: Vec<i8> = Vec::new();
            n1.push(c1);
            n1.push(r1[0]);
            n1.push(r1[1]);
            n1.push(r1[2]);
            n1.push(r1[3]);
            n1.push(r1[4]);
            n1.push(r1[5]);
            n1.push(r1[6]);
            n1.push(r1[7]);
            n1.push(r1[8]);
            let mut n2: Vec<i8> = Vec::new();
            n2.push(c2);
            n2.push(r2[0]);
            n2.push(r2[1]);
            n2.push(r2[2]);
            n2.push(r2[3]);
            n2.push(r2[4]);
            n2.push(r2[5]);
            n2.push(r2[6]);
            n2.push(r2[7]);
            n2.push(r2[8]);
            proof {
                assert(view_int(n1@) =~= g1_next(view_int(r1@)));
                assert(view_int(n2@) =~= g2_next(view_int(r2@)));
                assert(g1_reg((i + 1) as nat) == g1_next(g1_reg(i as nat)));
                assert(g2_reg((i + 1) as nat) == g2_next(g2_reg(i as nat)));
            }
            r1 = n1;
            r2 = n2;
            i += 1;
        }
        let d = g2_delay(prn);
        let mut j: usize = 1023 - d;
        let mut g: Vec<i8> = Vec::new();
        let mut i: usize = 0;
        while i < 1023
            invariant
                i <= 1023,
                5 <= d <= 1021,
                d as int == spec_g2_delay(prn as int),
                j == i + 1023 - d,
                g@.len() == i,
                g1@.len() == 1023,
                g2@.len() == 1023,
                forall|m: int| 0 <= m < 1023 ==> g1@[m] as int == g1_chip(m),
                forall|m: int| 0 <= m < 1023 ==> g2@[m] as int == g2_chip(m),
                forall|m: int| 0 <= m < i ==> g@[m] as int == ca_chip(prn as int, m),
                forall|m: int| 0 <= m < i ==> g@[m] == -1 || g@[m] == 1,
            decreases 1023 - i,
        {
            let idx = j % 1023;
            proof {
                lemma_reg_ok(i as nat);
                lemma_reg_ok(idx as nat);
                assert(g1@[i as int] as int == g1_chip(i as int));
                assert(g2@[idx as int] as int == g2_chip(idx as int));
                assert(g1_chip(i as int) == -1 || g1_chip(i as int) == 1);
                assert(g2_chip(idx as int) == -1 || g2_chip(idx as int) == 1);
            }
            let v = mul_sign(g1[i], g2[idx]);
            let w: i8 = if v == 1 {
                -1
            } else {
                1
            };
            proof {
                assert(idx as int == (i + 1023 - spec_g2_delay(prn as int)) % 1023);
                assert(w as int == ca_chip(prn as int, i as int));
            }
            let ghost prevg = g@;
            g.push(w);
            proof {
                assert forall|m: int| 0 <= m < i + 1 implies g@[m] as int == ca_chip(
                    prn as int,
                    m,
                ) by {
                    if m < i {
                        assert(g@[m] == prevg[m]);
                    } else {
                        assert(g@[m] == w);
                    }
                }
                assert forall|m: int| 0 <= m < i + 1 implies g@[m] == -1 || g@[m] == 1 by {
                    if m < i {
                        assert(g@[m] == prevg[m]);
                    } else {
                        assert(g@[m] == w);
                    }
                }
            }
            j += 1;
            i += 1;
        }
        g
    }

    /// Generates the spreading code of one PRN for a named signal; only
    /// GPS L1 C/A is supported.
    pub fn gen_code(sig: &str, prn: u8) -> (r: Option<Vec<i8>>)
        requires
            1 <= prn <= 210,
        ensures
            r.is_some() <==> sig.spec_bytes() == spec_l1ca_name(),
            r.is_some() ==> {
                let g = r.unwrap();
                &&& g@.len() == L1CA_CODE_LEN
                &&& forall|i: int| 0 <= i < L1CA_CODE_LEN ==> g@[i] as int == ca_chip(prn as int, i)
                &&& forall|i: int| 0 <= i < L1CA_CODE_LEN ==> g@[i] == -1 || g@[i] == 1
            },
    {
        let b = sig.as_bytes();
        let is_l1ca = b.len() == 4 && b[0] == 76 && b[1] == 49 && b[2] == 67 && b[3] == 65;
        proof {
            if is_l1ca {
                assert(b@ =~= spec_l1ca_name());
            } else {
                assert(b@ != spec_l1ca_name());
            }
        }
        if is_l1ca {
            Some(Self::gen_l1ca_code(prn))
        } else {
            None
        }
    }
}

/// The byte string "L1CA", the only signal name the generator knows.
pub open spec fn spec_l1ca_name() -> Seq<u8> {
    seq![76u8, 49u8, 67u8, 65u8]
}

} // verus!
