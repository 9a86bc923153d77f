//! Self-test procedure for the ADXL372 driver.
//!
//! The procedure is a fixed five-phase sequence: soft reset and forced
//! measurement setup, a guarded arming of the self-test trigger bit, a
//! timed sampling loop over the Z axis feeding two statistical windows, a
//! disarm, and a verdict followed by a final soft reset. Elapsed time is
//! accounted by summing the fixed per-sample delay, so the timeout decision
//! is deterministic. A timeout is a reported outcome, not an error; any bus
//! failure aborts the procedure, which still attempts a best-effort final
//! reset and propagates the original error.

use vstd::prelude::*;

use crate::device::power_update;
use crate::device::rmw_ops;
use crate::device::write_if_changed;
use crate::device::Adxl372;
use crate::error::Error;
use crate::interface::last_reg_byte;
use crate::interface::resets_in;
use crate::interface::Adxl372Interface;
use crate::interface::BusOp;
use crate::interface::DelayProvider;
use crate::params::PowerMode;
use crate::params::SettleFilter;
use crate::registers::PowerControl;
use crate::registers::SelfTest;
use crate::registers::REG_POWER_CTL;
use crate::registers::REG_RESET;
use crate::registers::REG_SELF_TEST;
use crate::registers::REG_ZDATA_H;
use crate::registers::RESET_COMMAND;

verus! {

/// Number of samples each statistical window holds once full.
pub const SAMPLES_PER_WINDOW: u32 = 20;

/// Minimum magnitude, in raw LSB, of the average shift the self-test
/// stimulus must produce for a pass verdict.
pub const SELF_TEST_THRESHOLD_LSB: i32 = 5;

/// Time budget for the sampling loop, in microseconds.
pub const SELF_TEST_TIMEOUT_US: u32 = 500_000;

/// Fixed delay between samples, in microseconds (matching a 400 Hz rate).
pub const SAMPLE_INTERVAL_US: u32 = 2_500;

/// The sum of a sequence of integers.
pub open spec fn sum_int(s: Seq<int>) -> int
    decreases s.len(),
{
    if s.len() == 0 {
        0
    } else {
        sum_int(s.drop_last()) + s.last()
    }
}

/// How many samples a window over the given stream holds: the stream
/// length, capped at the window size.
pub open spec fn window_len(s: Seq<int>) -> int {
    if s.len() < SAMPLES_PER_WINDOW {
        s.len() as int
    } else {
        SAMPLES_PER_WINDOW as int
    }
}

/// The baseline window: the earliest samples of the stream, up to the
/// window size.
pub open spec fn baseline_window(s: Seq<int>) -> Seq<int> {
    s.take(window_len(s))
}

/// The stimulated window: the latest samples of the stream, up to the
/// window size.
pub open spec fn trailing_window(s: Seq<int>) -> Seq<int> {
    s.skip(s.len() - window_len(s))
}

/// Integer division truncating toward zero, as the verdict's averages use.
pub open spec fn div_trunc(a: int, b: int) -> int {
    if a >= 0 {
        a / b
    } else {
        -((-a) / b)
    }
}

/// The average of a window, truncated toward zero; zero for an empty
/// window.
pub open spec fn window_avg(w: Seq<int>) -> int {
    if w.len() == 0 {
        0
    } else {
        div_trunc(sum_int(w), w.len() as int)
    }
}

/// Appending a sample adds it to the sum.
proof fn lemma_sum_push(s: Seq<int>, v: int)
    ensures
        sum_int(s.push(v)) == sum_int(s) + v,
{
    assert(s.push(v).drop_last() =~= s);
    assert(s.push(v).last() == v);
}

/// Dropping the first sample removes it from the sum.
proof fn lemma_sum_skip_first(s: Seq<int>)
    requires
        s.len() > 0,
    ensures
        sum_int(s) == s[0] + sum_int(s.skip(1)),
    decreases s.len(),
{
    if s.len() == 1 {
        assert(s.skip(1) =~= Seq::<int>::empty());
        assert(s.drop_last() =~= Seq::<int>::empty());
        assert(s.last() == s[0]);
    } else {
        lemma_sum_skip_first(s.drop_last());
        assert(s.skip(1).drop_last() =~= s.drop_last().skip(1));
        assert(s.skip(1).last() == s.last());
        assert(s.drop_last()[0] == s[0]);
    }
}

/// A sum of bounded samples is bounded by the sample count.
proof fn lemma_sum_bounds(s: Seq<int>)
    requires
        forall|i: int| 0 <= i < s.len() ==> -32768 <= #[trigger] s[i] <= 32767,
    ensures
        -32768 * s.len() <= sum_int(s) <= 32767 * s.len(),
    decreases s.len(),
{
    if s.len() > 0 {
        assert(forall|i: int|
            0 <= i < s.drop_last().len() ==> -32768 <= #[trigger] s.drop_last()[i] <= 32767);
        lemma_sum_bounds(s.drop_last());
        assert(-32768 <= s.last() <= 32767);
    }
}

/// Transient accumulator used during one self-test run: a frozen window of
/// the earliest samples (the baseline) and a sliding window of the latest
/// samples (the stimulated response). Once the sliding window is full, each
/// new sample evicts the oldest, which is subtracted from the running sum
/// before the new one is added.
pub struct SelfTestWindowStats {
    baseline_sum: i32,
    baseline_count: u32,
    window: Vec<i16>,
    stim_sum: i32,
    samples: Ghost<Seq<int>>,
}

impl SelfTestWindowStats {
    /// Every sample this accumulator has been fed, oldest first.
    pub closed spec fn seen(self) -> Seq<int> {
        self.samples@
    }

    /// The accumulator faithfully summarises the samples it has seen.
    pub closed spec fn wf(self) -> bool {
        &&& forall|i: int| 0 <= i < self.samples@.len() ==> -32768 <= #[trigger] self.samples@[i]
            <= 32767
        &&& self.baseline_count == window_len(self.samples@)
        &&& self.baseline_sum == sum_int(baseline_window(self.samples@))
        &&& self.window@.len() == window_len(self.samples@)
        &&& forall|j: int|
            0 <= j < self.window@.len() ==> #[trigger] self.window@[j] as int == self.samples@[
                self.samples@.len() - self.window@.len() + j]
        &&& self.stim_sum == sum_int(trailing_window(self.samples@))
    }

    /// Creates an empty accumulator.
    pub fn new() -> (r: SelfTestWindowStats)
        ensures
            r.wf(),
            r.seen() == Seq::<int>::empty(),
    {
        let r = SelfTestWindowStats {
            baseline_sum: 0,
            baseline_count: 0,
            window: Vec::new(),
            stim_sum: 0,
            samples: Ghost(Seq::empty()),
        };
        proof {
            assert(baseline_window(r.samples@) =~= Seq::<int>::empty());
            assert(trailing_window(r.samples@) =~= Seq::<int>::empty());
        }
        r
    }

    /// Feeds one sample to both windows: the baseline keeps only the
    /// earliest samples, the stimulated window keeps only the latest.
    pub fn record(&mut self, z: i16)
        requires
            old(self).wf(),
        ensures
            final(self).wf(),
            final(self).seen() == old(self).seen().push(z as int),
    {
        let ghost s0 = self.samples@;
        let ghost s1 = s0.push(z as int);
        proof {
            assert(forall|i: int| 0 <= i < s1.len() ==> -32768 <= #[trigger] s1[i] <= 32767);
        }
        if self.baseline_count < SAMPLES_PER_WINDOW {
            proof {
                assert(baseline_window(s0) =~= s0);
                lemma_sum_bounds(s0);
                assert(baseline_window(s1) =~= s1);
                lemma_sum_push(s0, z as int);
            }
            self.baseline_sum = self.baseline_sum + z as i32;
            self.baseline_count = self.baseline_count + 1;
        } else {
            proof {
                assert(baseline_window(s1) =~= baseline_window(s0));
            }
        }
        if self.window.len() < SAMPLES_PER_WINDOW as usize {
            proof {
                assert(trailing_window(s0) =~= s0);
                lemma_sum_bounds(s0);
                assert(trailing_window(s1) =~= s1);
                lemma_sum_push(s0, z as int);
            }
            self.window.push(z);
            self.stim_sum = self.stim_sum + z as i32;
        } else {
            let evicted = self.window.remove(0);
            proof {
                let w0 = trailing_window(s0);
                assert(w0.len() == SAMPLES_PER_WINDOW);
                assert(evicted as int == w0[0]);
                lemma_sum_bounds(w0);
                lemma_sum_skip_first(w0);
                lemma_sum_push(w0.skip(1), z as int);
                assert(trailing_window(s1) =~= w0.skip(1).push(z as int));
            }
            self.stim_sum = self.stim_sum - evicted as i32 + z as i32;
            self.window.push(z);
        }
        proof {
            self.samples@ = s1;
        }
    }

    /// How many samples each window currently holds: the number of samples
    /// seen, capped at the window size.
    pub fn samples_per_window(&self) -> (r: u32)
        requires
            self.wf(),
        ensures
            r == window_len(self.seen()),
            r <= SAMPLES_PER_WINDOW,
    {
        self.baseline_count
    }

    /// The average of the baseline window, truncated toward zero.
    pub fn baseline_average(&self) -> (r: i32)
        requires
            self.wf(),
        ensures
            r == window_avg(baseline_window(self.seen())),
            -32768 <= r <= 32767,
    {
        proof {
            assert(baseline_window(self.seen()).len() == window_len(self.seen()));
            assert(forall|i: int|
                0 <= i < baseline_window(self.seen()).len() ==> -32768 <= #[trigger] baseline_window(
                    self.seen(),
                )[i] <= 32767);
            lemma_sum_bounds(baseline_window(self.seen()));
        }
        div_sum(self.baseline_sum, self.baseline_count)
    }

    /// The average of the stimulated (trailing) window, truncated toward
    /// zero.
    pub fn stimulated_average(&self) -> (r: i32)
        requires
            self.wf(),
        ensures
            r == window_avg(trailing_window(self.seen())),
            -32768 <= r <= 32767,
    {
        proof {
            assert(trailing_window(self.seen()).len() == window_len(self.seen()));
            assert(forall|i: int|
                0 <= i < trailing_window(self.seen()).len() ==> -32768 <= #[trigger] trailing_window(
                    self.seen(),
                )[i] <= 32767);
            lemma_sum_bounds(trailing_window(self.seen()));
        }
        div_sum(self.stim_sum, self.baseline_count)
    }
}

/// Divides a window sum by its sample count, truncating toward zero; zero
/// for an empty window.
fn div_sum(sum: i32, count: u32) -> (r: i32)
    requires
        count <= SAMPLES_PER_WINDOW,
        -32768 * count <= sum <= 32767 * count,
    ensures
        r == (if count == 0 {
            0int
        } else {
            div_trunc(sum as int, count as int)
        }),
        -32768 <= r <= 32767,
{
    if count == 0 {
        return 0;
    }
    if sum >= 0 {
        let q = (sum as u32) / count;
        proof {
            assert(sum as int / count as int <= 32767) by (nonlinear_arith)
                requires
                    0 <= sum as int <= 32767 * count as int,
                    count as int >= 1,
            ;
        }
        q as i32
    } else {
        let m = (-sum) as u32;
        let q = m / count;
        proof {
            assert(m as int / count as int <= 32768) by (nonlinear_arith)
                requires
                    0 <= m as int <= 32768 * count as int,
                    count as int >= 1,
            ;
        }
        -(q as i32)
    }
}

/// Result produced by the self-test routine.
#[derive(Debug, Clone, Copy, PartialEq, Eq, Structural)]
pub struct SelfTestReport {
    /// Indicates whether the self-test passed.
    pub passed: bool,
    /// Average of the baseline window (the earliest samples), in raw LSB.
    pub baseline_avg: i32,
    /// Average of the stimulated window (the latest samples), in raw LSB.
    pub stimulated_avg: i32,
    /// Signed difference: stimulated average minus baseline average.
    pub delta: i32,
    /// Number of samples each window actually held.
    pub samples_per_window: u32,
    /// Hardware self-test completion flag observed at exit.
    pub st_done: bool,
    /// Hardware user self-test pass flag observed at exit.
    pub user_st: bool,
    /// Whether the sampling loop exhausted its time budget.
    pub timed_out: bool,
}

impl Default for SelfTestReport {
    /// An all-clear report: nothing observed, nothing passed.
    fn default() -> (r: Self)
        ensures
            r == (SelfTestReport {
                passed: false,
                baseline_avg: 0,
                stimulated_avg: 0,
                delta: 0,
                samples_per_window: 0,
                st_done: false,
                user_st: false,
                timed_out: false,
            }),
    {
        SelfTestReport {
            passed: false,
            baseline_avg: 0,
            stimulated_avg: 0,
            delta: 0,
            samples_per_window: 0,
            st_done: false,
            user_st: false,
            timed_out: false,
        }
    }
}

/// The 12-bit left-justified two's-complement value carried by a big-endian
/// axis register pair, recovered as an integer.
pub open spec fn axis_val(hi: u8, lo: u8) -> int {
    let v = hi as int * 16 + lo as int / 16;
    if v < 2048 {
        v
    } else {
        v - 4096
    }
}

/// Recovers the signed 12-bit sample from a big-endian axis register pair.
pub fn decode_axis(hi: u8, lo: u8) -> (r: i16)
    ensures
        r as int == axis_val(hi, lo),
        -2048 <= r < 2048,
{
    let v: u16 = (hi as u16) * 16 + (lo as u16) / 16;
    if v < 2048 {
        v as i16
    } else {
        ((v - 2048) as i16) - 2047 - 1
    }
}

/// The soft-reset bus operation.
pub open spec fn reset_op() -> BusOp {
    BusOp::Write { addr: REG_RESET, value: RESET_COMMAND }
}

/// The Z-axis sample a bus operation carries, if it is a two-byte burst
/// read of the Z-axis data registers.
pub open spec fn z_of(op: BusOp) -> Option<int> {
    match op {
        BusOp::ReadBurst { addr, values } => if addr == REG_ZDATA_H && values.len() == 2 {
            Some(axis_val(values[0], values[1]))
        } else {
            None
        },
        _ => None,
    }
}

/// Whether a bus operation is one the sampling loop issues: a read of the
/// self-test trigger register or a two-byte Z-axis burst read.
pub open spec fn loop_op(op: BusOp) -> bool {
    (op is Read && op.op_addr() == REG_SELF_TEST) || z_of(op) is Some
}

/// The stream of Z-axis samples a history carries, oldest first.
pub open spec fn z_reads(h: Seq<BusOp>) -> Seq<int>
    decreases h.len(),
{
    if h.len() == 0 {
        Seq::empty()
    } else {
        match z_of(h.last()) {
            Some(v) => z_reads(h.drop_last()).push(v),
            None => z_reads(h.drop_last()),
        }
    }
}

/// Appending one operation extends the sample stream exactly when the
/// operation is a Z-axis burst read.
proof fn lemma_z_reads_push(h: Seq<BusOp>, op: BusOp)
    ensures
        z_reads(h.push(op)) == (match z_of(op) {
            Some(v) => z_reads(h).push(v),
            None => z_reads(h),
        }),
{
    assert(h.push(op).drop_last() =~= h);
    assert(h.push(op).last() == op);
}

/// A read-modify-write cycle carries no Z-axis samples.
proof fn lemma_z_reads_rmw(h: Seq<BusOp>, addr: u8, b0: u8, b1: u8)
    ensures
        z_reads(h + rmw_ops(addr, b0, b1)) == z_reads(h),
        z_reads(h + rmw_ops(addr, b0, b1).skip(1)) == z_reads(h),
{
    let d = rmw_ops(addr, b0, b1);
    if b1 == b0 {
        assert(h + d =~= h.push(BusOp::Read { addr, value: b0 }));
        lemma_z_reads_push(h, BusOp::Read { addr, value: b0 });
        assert(h + d.skip(1) =~= h);
    } else {
        assert(h + d =~= h.push(BusOp::Read { addr, value: b0 }).push(
            BusOp::Write { addr, value: b1 },
        ));
        lemma_z_reads_push(h, BusOp::Read { addr, value: b0 });
        lemma_z_reads_push(
            h.push(BusOp::Read { addr, value: b0 }),
            BusOp::Write { addr, value: b1 },
        );
        assert(h + d.skip(1) =~= h.push(BusOp::Write { addr, value: b1 }));
        lemma_z_reads_push(h, BusOp::Write { addr, value: b1 });
    }
}

/// The bookkeeping that holds from right after the entry soft reset until
/// the final one: the history extends the entry state and exactly one soft
/// reset has been issued so far.
spec fn st_mid_inv(h0: Seq<BusOp>, h: Seq<BusOp>) -> bool {
    &&& h0.push(reset_op()).len() <= h.len()
    &&& h.take(h0.push(reset_op()).len() as int) == h0.push(reset_op())
    &&& resets_in(h) == resets_in(h0) + 1
}

/// The entry soft reset establishes the mid-procedure bookkeeping.
proof fn lemma_mid_inv_entry(h0: Seq<BusOp>)
    ensures
        st_mid_inv(h0, h0.push(reset_op())),
{
    let he = h0.push(reset_op());
    crate::device::lemma_resets_in_push(h0, reset_op());
    assert(he.take(he.len() as int) =~= he);
}

/// Any single operation other than a soft reset preserves the bookkeeping.
proof fn lemma_mid_inv_push(h0: Seq<BusOp>, h: Seq<BusOp>, op: BusOp)
    requires
        st_mid_inv(h0, h),
        op != reset_op(),
    ensures
        st_mid_inv(h0, h.push(op)),
{
    let he = h0.push(reset_op());
    crate::device::lemma_resets_in_push(h, op);
    assert(h.push(op).take(h.len() as int) =~= h);
    crate::interface::lemma_take_prefix_trans(he, h, h.push(op));
}

/// A read-modify-write cycle at a register other than the reset register
/// preserves the bookkeeping, whole or with its read already recorded.
proof fn lemma_mid_inv_rmw(h0: Seq<BusOp>, h: Seq<BusOp>, addr: u8, b0: u8, b1: u8)
    requires
        st_mid_inv(h0, h),
        addr != REG_RESET,
    ensures
        st_mid_inv(h0, h + rmw_ops(addr, b0, b1)),
        st_mid_inv(h0, h + rmw_ops(addr, b0, b1).skip(1)),
{
    let he = h0.push(reset_op());
    let d = rmw_ops(addr, b0, b1);
    crate::device::lemma_resets_in_rmw(h, addr, b0, b1);
    assert((h + d).take(h.len() as int) =~= h);
    crate::interface::lemma_take_prefix_trans(he, h, h + d);
    assert((h + d.skip(1)).take(h.len() as int) =~= h);
    crate::interface::lemma_take_prefix_trans(he, h, h + d.skip(1));
}

/// An extension whose operations all stay away from the reset register
/// preserves the bookkeeping.
proof fn lemma_mid_inv_extend(h0: Seq<BusOp>, h: Seq<BusOp>, h2: Seq<BusOp>)
    requires
        st_mid_inv(h0, h),
        h.len() <= h2.len(),
        h2.take(h.len() as int) == h,
        forall|i: int| h.len() <= i < h2.len() ==> #[trigger] h2[i].op_addr() != REG_RESET,
    ensures
        st_mid_inv(h0, h2),
    decreases h2.len(),
{
    let he = h0.push(reset_op());
    if h2.len() == h.len() {
        assert(h2 =~= h);
    } else {
        let hp = h2.drop_last();
        assert(hp.take(h.len() as int) =~= h);
        lemma_mid_inv_extend(h0, h, hp);
        assert(h2.last().op_addr() != REG_RESET);
        assert(h2.last() != reset_op());
        assert(h2 =~= hp.push(h2.last()));
        lemma_mid_inv_push(h0, hp, h2.last());
    }
}

/// The final soft reset, issued from any mid-procedure state, yields the
/// procedure's history shape: the original history is kept as a prefix,
/// exactly two soft resets were added, the first added operation is the
/// entry reset and the last operation is the exit reset.
proof fn lemma_abort(h0: Seq<BusOp>, h: Seq<BusOp>)
    requires
        st_mid_inv(h0, h),
    ensures
        ({
            let ha = h.push(reset_op());
            &&& resets_in(ha) == resets_in(h0) + 2
            &&& h0.len() < ha.len()
            &&& ha.take(h0.len() as int) == h0
            &&& ha[h0.len() as int] == reset_op()
            &&& ha.last() == reset_op()
        }),
{
    let he = h0.push(reset_op());
    let ha = h.push(reset_op());
    crate::device::lemma_resets_in_push(h, reset_op());
    assert(he.take(h0.len() as int) =~= h0);
    crate::interface::lemma_take_prefix_trans(h0, he, h);
    assert(ha.take(h.len() as int) =~= h);
    crate::interface::lemma_take_prefix_trans(h0, h, ha);
    assert(ha[h0.len() as int] == h[h0.len() as int]);
    assert(h[h0.len() as int] == h.take(he.len() as int)[h0.len() as int]);
    assert(he[h0.len() as int] == reset_op());
}

/// The success-path history shape of the self-test procedure: between the
/// entry and exit soft resets stand, in order, a power-control
/// read-modify-write whose written view forces measurement mode, the
/// low-pass filter on and the long settle selection; a trigger-register
/// clear cycle; an arm cycle whose written view has the trigger bit set;
/// the sampling reads; and a disarm cycle. The report's hardware flags are
/// the flag bits of the byte returned by the last trigger-register read of
/// the sampling segment.
pub open spec fn self_test_shape(h0: Seq<BusOp>, h1: Seq<BusOp>, rep: SelfTestReport) -> bool {
    exists|bp: u8, bc: u8, ba: u8, bd: u8, loop_ops: Seq<BusOp>|
        #![trigger PowerControl::decode_spec(bp), SelfTest::decode_spec(bc), SelfTest::decode_spec(ba), SelfTest::decode_spec(bd), last_reg_byte(loop_ops, REG_SELF_TEST)]
        {
            let dpwr = rmw_ops(
                REG_POWER_CTL,
                bp,
                power_update(
                    PowerControl::decode_spec(bp),
                    Some(PowerMode::Measure),
                    None,
                    Some(false),
                    Some(SettleFilter::Ms370),
                    None,
                    None,
                ).encode_spec(),
            );
            let dclear = rmw_ops(
                REG_SELF_TEST,
                bc,
                (SelfTest { st: false, ..SelfTest::decode_spec(bc) }).encode_spec(),
            );
            let darm = rmw_ops(
                REG_SELF_TEST,
                ba,
                (SelfTest { st: true, ..SelfTest::decode_spec(ba) }).encode_spec(),
            );
            let ddis = rmw_ops(
                REG_SELF_TEST,
                bd,
                (SelfTest { st: false, ..SelfTest::decode_spec(bd) }).encode_spec(),
            );
            &&& h1 == h0 + seq![reset_op()] + dpwr + dclear + darm + loop_ops + ddis + seq![
                reset_op(),
            ]
            &&& (forall|i: int| 0 <= i < loop_ops.len() ==> loop_op(#[trigger] loop_ops[i]))
            &&& (last_reg_byte(loop_ops, REG_SELF_TEST) matches Some(b) && rep.st_done
                == SelfTest::decode_spec(b).st_done && rep.user_st == SelfTest::decode_spec(
                b,
            ).user_st)
        }
}

/// Assembles the success-path history shape of the self-test procedure
/// from the per-phase facts: entry reset, forced power setup, clear and arm
/// cycles, the sampling segment, the disarm cycle, and the exit reset; the
/// report's hardware flags come from the last trigger-register read of the
/// sampling segment.
proof fn lemma_self_test_shape(
    h0: Seq<BusOp>,
    h_pwr: Seq<BusOp>,
    h_c0: Seq<BusOp>,
    h_a0: Seq<BusOp>,
    h_loop0: Seq<BusOp>,
    h_d0: Seq<BusOp>,
    h_f0: Seq<BusOp>,
    h1: Seq<BusOp>,
    bp: u8,
    bc: u8,
    ba: u8,
    bd: u8,
    rep: SelfTestReport,
    last_view: SelfTest,
)
    requires
        h_pwr == h0.push(reset_op()),
        h_c0 == h_pwr + rmw_ops(
            REG_POWER_CTL,
            bp,
            power_update(
                PowerControl::decode_spec(bp),
                Some(PowerMode::Measure),
                None,
                Some(false),
                Some(SettleFilter::Ms370),
                None,
                None,
            ).encode_spec(),
        ),
        h_a0 == h_c0 + rmw_ops(
            REG_SELF_TEST,
            bc,
            (SelfTest { st: false, ..SelfTest::decode_spec(bc) }).encode_spec(),
        ),
        h_loop0 == h_a0 + rmw_ops(
            REG_SELF_TEST,
            ba,
            (SelfTest { st: true, ..SelfTest::decode_spec(ba) }).encode_spec(),
        ),
        h_loop0.len() <= h_d0.len(),
        h_d0.take(h_loop0.len() as int) == h_loop0,
        forall|i: int| h_loop0.len() <= i < h_d0.len() ==> loop_op(#[trigger] h_d0[i]),
        last_reg_byte(h_d0.skip(h_loop0.len() as int), REG_SELF_TEST) matches Some(b) && last_view
            == SelfTest::decode_spec(b),
        rep.st_done == last_view.st_done,
        rep.user_st == last_view.user_st,
        h_f0 == h_d0 + rmw_ops(
            REG_SELF_TEST,
            bd,
            (SelfTest { st: false, ..SelfTest::decode_spec(bd) }).encode_spec(),
        ),
        h1 == h_f0.push(reset_op()),
    ensures
        self_test_shape(h0, h1, rep),
{
    let loop_ops = h_d0.skip(h_loop0.len() as int);
    assert(h_pwr =~= h0 + seq![reset_op()]);
    assert(h_d0 =~= h_loop0 + loop_ops);
    assert(h1 =~= h_f0 + seq![reset_op()]);
    let dpwr = rmw_ops(
        REG_POWER_CTL,
        bp,
        power_update(
            PowerControl::decode_spec(bp),
            Some(PowerMode::Measure),
            None,
            Some(false),
            Some(SettleFilter::Ms370),
            None,
            None,
        ).encode_spec(),
    );
    let dclear = rmw_ops(
        REG_SELF_TEST,
        bc,
        (SelfTest { st: false, ..SelfTest::decode_spec(bc) }).encode_spec(),
    );
    let darm = rmw_ops(
        REG_SELF_TEST,
        ba,
        (SelfTest { st: true, ..SelfTest::decode_spec(ba) }).encode_spec(),
    );
    let ddis = rmw_ops(
        REG_SELF_TEST,
        bd,
        (SelfTest { st: false, ..SelfTest::decode_spec(bd) }).encode_spec(),
    );
    assert(h1 =~= h0 + seq![reset_op()] + dpwr + dclear + darm + loop_ops + ddis + seq![
        reset_op(),
    ]);
    assert(forall|i: int| 0 <= i < loop_ops.len() ==> loop_op(#[trigger] loop_ops[i])) by {
        assert(forall|i: int|
            0 <= i < loop_ops.len() ==> #[trigger] loop_ops[i] == h_d0[h_loop0.len() + i]);
    }
}

/// Issues a best-effort soft reset, discarding any bus error it reports.
fn abort_reset<IFACE: Adxl372Interface>(iface: &mut IFACE)
    ensures
        final(iface).history() == old(iface).history().push(reset_op()),
{
    let _ = iface.write_register(REG_RESET, RESET_COMMAND);
}

/// Reads one raw Z-axis sample as a two-byte burst starting at the high
/// data register.
fn read_z_sample<IFACE: Adxl372Interface>(iface: &mut IFACE) -> (r: Result<i16, IFACE::Error>)
    ensures
        r matches Ok(v) ==> ({
            let h0 = old(iface).history();
            let h1 = final(iface).history();
            &&& h1.len() == h0.len() + 1
            &&& h1 == h0.push(h1.last())
            &&& z_of(h1.last()) == Some(v as int)
            &&& -2048 <= v < 2048
        }),
        r is Err ==> final(iface).history() == old(iface).history(),
{
    let mut buf: Vec<u8> = Vec::new();
    buf.push(0);
    buf.push(0);
    match iface.read_many(REG_ZDATA_H, &mut buf) {
        Ok(()) => {
            let v = decode_axis(buf[0], buf[1]);
            proof {
                let h1 = iface.history();
                assert(h1 == old(iface).history().push(h1.last()));
            }
            Ok(v)
        },
        Err(e) => Err(e),
    }
}

/// Phases before sampling: the entry soft reset, the forced measurement
/// setup (low-pass filter on, measurement mode, long filter settle) with
/// its settle delay, a defensive clear of the self-test trigger bit, the
/// guard delay, and the arming write. On a bus failure the exit reset is
/// still attempted, so even the error path carries the procedure's
/// two-reset shape.
#[verifier::rlimit(100)]
#[verifier::spinoff_prover]
fn self_test_setup<IFACE: Adxl372Interface, D: DelayProvider>(
    device: &mut Adxl372<IFACE>,
    delay: &mut D,
) -> (r: Result<(), Error<IFACE::Error>>)
    ensures
        final(device).config.timing_view() == old(device).config.timing_view(),
        final(device).config.measure_view() == old(device).config.measure_view(),
        r is Err ==> r matches Err(Error::Interface(_)),
        r is Ok ==> ({
            let h0 = old(device).interface.history();
            let h1 = final(device).interface.history();
            &&& st_mid_inv(h0, h1)
            &&& z_reads(h1) == z_reads(h0)
            &&& exists|bp: u8, bc: u8, ba: u8|
                #![trigger PowerControl::decode_spec(bp), SelfTest::decode_spec(bc), SelfTest::decode_spec(ba)]
                h1 == h0 + seq![reset_op()] + rmw_ops(
                    REG_POWER_CTL,
                    bp,
                    power_update(
                        PowerControl::decode_spec(bp),
                        Some(PowerMode::Measure),
                        None,
                        Some(false),
                        Some(SettleFilter::Ms370),
                        None,
                        None,
                    ).encode_spec(),
                ) + rmw_ops(
                    REG_SELF_TEST,
                    bc,
                    (SelfTest { st: false, ..SelfTest::decode_spec(bc) }).encode_spec(),
                ) + rmw_ops(
                    REG_SELF_TEST,
                    ba,
                    (SelfTest { st: true, ..SelfTest::decode_spec(ba) }).encode_spec(),
                )
        }),
        r is Err ==> ({
            let h0 = old(device).interface.history();
            let h1 = final(device).interface.history();
            &&& resets_in(h1) == resets_in(h0) + 2
            &&& h0.len() < h1.len()
            &&& h1.take(h0.len() as int) == h0
            &&& h1[h0.len() as int] == reset_op()
            &&& h1.last() == reset_op()
        }),
{
    let ghost h0 = device.interface.history();

    // Entry soft reset.
    let entry = device.interface.write_register(REG_RESET, RESET_COMMAND);
    proof {
        lemma_mid_inv_entry(h0);
        lemma_z_reads_push(h0, reset_op());
    }
    match entry {
        Ok(()) => {},
        Err(e) => {
            let ghost hp = device.interface.history();
            abort_reset(&mut device.interface);
            proof {
                lemma_abort(h0, hp);
            }
            return Err(Error::Interface(e));
        },
    }

    // Forced measurement setup.
    let ghost h_pwr = device.interface.history();
    match device.configure_power(
        Some(PowerMode::Measure),
        None,
        Some(false),
        Some(SettleFilter::Ms370),
        None,
        None,
    ) {
        Ok(()) => {},
        Err(err) => {
            let ghost hp = device.interface.history();
            proof {
                lemma_mid_inv_extend(h0, h_pwr, hp);
            }
            abort_reset(&mut device.interface);
            proof {
                lemma_abort(h0, hp);
            }
            return Err(err);
        },
    }
    let ghost bp = device.interface.history()[h_pwr.len() as int].op_byte();
    proof {
        let p1 = power_update(
            PowerControl::decode_spec(bp),
            Some(PowerMode::Measure),
            None,
            Some(false),
            Some(SettleFilter::Ms370),
            None,
            None,
        );
        assert(device.interface.history() == h_pwr + rmw_ops(
            REG_POWER_CTL,
            bp,
            p1.encode_spec(),
        ));
        lemma_mid_inv_rmw(h0, h_pwr, REG_POWER_CTL, bp, p1.encode_spec());
        lemma_z_reads_rmw(h_pwr, REG_POWER_CTL, bp, p1.encode_spec());
    }
    let settle = SettleFilter::Ms370;
    delay.delay_ms(settle.millis() as u32);

    // Defensive clear of the trigger bit.
    let ghost h_c0 = device.interface.history();
    let bc0 = match device.interface.read_register(REG_SELF_TEST) {
        Ok(b) => b,
        Err(e) => {
            let ghost hp = device.interface.history();
            abort_reset(&mut device.interface);
            proof {
                lemma_abort(h0, hp);
            }
            return Err(Error::Interface(e));
        },
    };
    proof {
        lemma_mid_inv_push(h0, h_c0, BusOp::Read { addr: REG_SELF_TEST, value: bc0 });
        lemma_z_reads_push(h_c0, BusOp::Read { addr: REG_SELF_TEST, value: bc0 });
    }
    let vc = SelfTest::decode(bc0);
    let cleared = SelfTest { st: false, ..vc };
    let bc1 = cleared.encode();
    let ghost h_c1 = device.interface.history();
    match write_if_changed(&mut device.interface, REG_SELF_TEST, bc0, bc1) {
        Ok(()) => {
            proof {
                lemma_mid_inv_rmw(h0, h_c1, REG_SELF_TEST, bc0, bc1);
                lemma_z_reads_rmw(h_c1, REG_SELF_TEST, bc0, bc1);
                assert(device.interface.history() =~= h_c0 + rmw_ops(REG_SELF_TEST, bc0, bc1));
            }
        },
        Err(e) => {
            let ghost hp = device.interface.history();
            proof {
                lemma_mid_inv_push(h0, h_c1, BusOp::Write { addr: REG_SELF_TEST, value: bc1 });
            }
            abort_reset(&mut device.interface);
            proof {
                lemma_abort(h0, hp);
            }
            return Err(Error::Interface(e));
        },
    }
    delay.delay_ms(2);

    // Arm the trigger.
    let ghost h_a0 = device.interface.history();
    let ba0 = match device.interface.read_register(REG_SELF_TEST) {
        Ok(b) => b,
        Err(e) => {
            let ghost hp = device.interface.history();
            abort_reset(&mut device.interface);
            proof {
                lemma_abort(h0, hp);
            }
            return Err(Error::Interface(e));
        },
    };
    proof {
        lemma_mid_inv_push(h0, h_a0, BusOp::Read { addr: REG_SELF_TEST, value: ba0 });
        lemma_z_reads_push(h_a0, BusOp::Read { addr: REG_SELF_TEST, value: ba0 });
    }
    let va = SelfTest::decode(ba0);
    let armed = SelfTest { st: true, ..va };
    let ba1 = armed.encode();
    let ghost h_a1 = device.interface.history();
    match write_if_changed(&mut device.interface, REG_SELF_TEST, ba0, ba1) {
        Ok(()) => {
            proof {
                lemma_mid_inv_rmw(h0, h_a1, REG_SELF_TEST, ba0, ba1);
                lemma_z_reads_rmw(h_a1, REG_SELF_TEST, ba0, ba1);
                assert(device.interface.history() =~= h_a0 + rmw_ops(REG_SELF_TEST, ba0, ba1));
            }
        },
        Err(e) => {
            let ghost hp = device.interface.history();
            proof {
                lemma_mid_inv_push(h0, h_a1, BusOp::Write { addr: REG_SELF_TEST, value: ba1 });
            }
            abort_reset(&mut device.interface);
            proof {
                lemma_abort(h0, hp);
            }
            return Err(Error::Interface(e));
        },
    }
    proof {
        let h1 = device.interface.history();
        let dpwr = rmw_ops(
            REG_POWER_CTL,
            bp,
            power_update(
                PowerControl::decode_spec(bp),
                Some(PowerMode::Measure),
                None,
                Some(false),
                Some(SettleFilter::Ms370),
                None,
                None,
            ).encode_spec(),
        );
        let dclear = rmw_ops(
            REG_SELF_TEST,
            bc0,
            (SelfTest { st: false, ..SelfTest::decode_spec(bc0) }).encode_spec(),
        );
        let darm = rmw_ops(
            REG_SELF_TEST,
            ba0,
            (SelfTest { st: true, ..SelfTest::decode_spec(ba0) }).encode_spec(),
        );
        assert(h_pwr =~= h0 + seq![reset_op()]);
        assert(h1 =~= h0 + seq![reset_op()] + dpwr + dclear + darm);
    }
    Ok(())
}

/// The sampling loop: each round checks the elapsed budget, reads the
/// trigger register for completion, and otherwise accumulates one Z-axis
/// sample and waits out the fixed interval. Returns the accumulator, the
/// last trigger view observed, and whether the budget ran out. On a bus
/// failure the exit reset is still attempted, so even the error path
/// carries the procedure's two-reset shape (relative to the supplied
/// pre-procedure history).
#[verifier::rlimit(100)]
#[verifier::spinoff_prover]
fn sample_until_done<IFACE: Adxl372Interface, D: DelayProvider>(
    device: &mut Adxl372<IFACE>,
    delay: &mut D,
    Ghost(h0): Ghost<Seq<BusOp>>,
) -> (r: Result<(SelfTestWindowStats, SelfTest, bool), Error<IFACE::Error>>)
    requires
        st_mid_inv(h0, old(device).interface.history()),
        z_reads(old(device).interface.history()) == z_reads(h0),
    ensures
        final(device).config == old(device).config,
        r is Err ==> r matches Err(Error::Interface(_)),
        r matches Ok(out) ==> ({
            let hs = old(device).interface.history();
            let h1 = final(device).interface.history();
            &&& out.0.wf()
            &&& st_mid_inv(h0, h1)
            &&& z_reads(h1) == z_reads(h0) + out.0.seen()
            &&& hs.len() <= h1.len()
            &&& h1.take(hs.len() as int) == hs
            &&& (forall|i: int| hs.len() <= i < h1.len() ==> loop_op(#[trigger] h1[i]))
            &&& (last_reg_byte(h1.skip(hs.len() as int), REG_SELF_TEST) matches Some(b) && out.1
                == SelfTest::decode_spec(b))
            &&& (out.2 || out.1.st_done)
            &&& (out.2 ==> out.0.seen().len() == SELF_TEST_TIMEOUT_US / SAMPLE_INTERVAL_US)
        }),
        r is Err ==> ({
            let h1 = final(device).interface.history();
            &&& resets_in(h1) == resets_in(h0) + 2
            &&& h0.len() < h1.len()
            &&& h1.take(h0.len() as int) == h0
            &&& h1[h0.len() as int] == reset_op()
            &&& h1.last() == reset_op()
        }),
{
    let ghost h_loop0 = device.interface.history();
    let mut stats = SelfTestWindowStats::new();
    let mut elapsed_us: u32 = 0;
    let mut timed_out: bool = false;
    let mut last_view = SelfTest::decode(0);
    let ghost cfg_mid = device.config;
    loop
        invariant_except_break
            !timed_out,
        invariant
            h_loop0 == old(device).interface.history(),
            cfg_mid == old(device).config,
            stats.wf(),
            elapsed_us <= SELF_TEST_TIMEOUT_US,
            elapsed_us == SAMPLE_INTERVAL_US * stats.seen().len(),
            device.config == cfg_mid,
            st_mid_inv(h0, device.interface.history()),
            z_reads(device.interface.history()) == z_reads(h0) + stats.seen(),
            h_loop0.len() <= device.interface.history().len(),
            device.interface.history().take(h_loop0.len() as int) == h_loop0,
            forall|i: int|
                h_loop0.len() <= i < device.interface.history().len() ==> loop_op(
                    #[trigger] device.interface.history()[i],
                ),
            (device.interface.history().len() == h_loop0.len() && elapsed_us == 0) || (
            last_reg_byte(
                device.interface.history().skip(h_loop0.len() as int),
                REG_SELF_TEST,
            ) matches Some(b) && last_view == SelfTest::decode_spec(b)),
        ensures
            stats.wf(),
            device.config == cfg_mid,
            st_mid_inv(h0, device.interface.history()),
            z_reads(device.interface.history()) == z_reads(h0) + stats.seen(),
            timed_out || last_view.st_done,
            timed_out ==> stats.seen().len() == SELF_TEST_TIMEOUT_US / SAMPLE_INTERVAL_US,
            h_loop0.len() <= device.interface.history().len(),
            device.interface.history().take(h_loop0.len() as int) == h_loop0,
            forall|i: int|
                h_loop0.len() <= i < device.interface.history().len() ==> loop_op(
                    #[trigger] device.interface.history()[i],
                ),
            last_reg_byte(device.interface.history().skip(h_loop0.len() as int), REG_SELF_TEST)
                matches Some(b) && last_view == SelfTest::decode_spec(b),
        decreases SELF_TEST_TIMEOUT_US - elapsed_us,
    {
        if elapsed_us >= SELF_TEST_TIMEOUT_US {
            timed_out = true;
            break;
        }
        let ghost h_s0 = device.interface.history();
        let st_byte = match device.interface.read_register(REG_SELF_TEST) {
            Ok(b) => b,
            Err(e) => {
                let ghost hp = device.interface.history();
                abort_reset(&mut device.interface);
                proof {
                    lemma_abort(h0, hp);
                }
                return Err(Error::Interface(e));
            },
        };
        proof {
            let op = BusOp::Read { addr: REG_SELF_TEST, value: st_byte };
            lemma_mid_inv_push(h0, h_s0, op);
            lemma_z_reads_push(h_s0, op);
            let hcur = device.interface.history();
            assert(hcur.take(h_loop0.len() as int) =~= h_loop0);
            let seg = hcur.skip(h_loop0.len() as int);
            assert(seg =~= h_s0.skip(h_loop0.len() as int).push(op));
            assert(seg.last() == op);
            assert(last_reg_byte(seg, REG_SELF_TEST) == Some(st_byte));
            assert forall|i: int| h_loop0.len() <= i < hcur.len() implies loop_op(
                #[trigger] hcur[i],
            ) by {
                if i < h_s0.len() as int {
                    assert(hcur[i] == h_s0[i]);
                } else {
                    assert(hcur[i] == op);
                }
            }
        }
        let view = SelfTest::decode(st_byte);
        last_view = view;
        if view.st_done {
            break;
        }
        let ghost h_z0 = device.interface.history();
        let z = match read_z_sample(&mut device.interface) {
            Ok(v) => v,
            Err(e) => {
                let ghost hp = device.interface.history();
                abort_reset(&mut device.interface);
                proof {
                    lemma_abort(h0, hp);
                }
                return Err(Error::Interface(e));
            },
        };
        proof {
            let hcur = device.interface.history();
            let op = hcur.last();
            lemma_mid_inv_push(h0, h_z0, op);
            lemma_z_reads_push(h_z0, op);
            assert(hcur.take(h_loop0.len() as int) =~= h_loop0);
            let seg0 = h_z0.skip(h_loop0.len() as int);
            let seg = hcur.skip(h_loop0.len() as int);
            assert(seg =~= seg0.push(op));
            assert(seg.drop_last() =~= seg0);
            assert(last_reg_byte(seg, REG_SELF_TEST) == last_reg_byte(seg0, REG_SELF_TEST));
            assert forall|i: int| h_loop0.len() <= i < hcur.len() implies loop_op(
                #[trigger] hcur[i],
            ) by {
                if i < h_z0.len() as int {
                    assert(hcur[i] == h_z0[i]);
                } else {
                    assert(hcur[i] == op);
                }
            }
        }
        stats.record(z);
        elapsed_us = elapsed_us + SAMPLE_INTERVAL_US;
        delay.delay_ms(2);
        delay.delay_ns(500_000);
    }
    Ok((stats, last_view, timed_out))
}

/// Executes the self-test sequence as described in the datasheet.
///
/// The sequence is: entry soft reset; forced measurement setup (low-pass
/// filter on, measurement mode, long filter settle) with the corresponding
/// settle delay; defensive clearing of the self-test trigger bit, a short
/// guard delay, then arming the trigger; a sampling loop that reads the
/// trigger register for completion and otherwise accumulates one Z-axis
/// sample per fixed interval until completion or the time budget runs out;
/// disarming the trigger; and a verdict followed by an exit soft reset.
///
/// Exactly two soft resets are issued on every path — the entry reset and
/// the exit reset, the latter attempted even when a bus failure aborts the
/// procedure. A timeout is a reported outcome, not an error. On success the
/// report's windows summarise exactly the Z-axis samples the bus carried
/// during the run, the history between the two resets holds exactly the
/// forced power setup, the clear and arm cycles, the sampling reads and the
/// disarm cycle, and the report's hardware flags are the bits of the byte
/// the last trigger-register read of the sampling loop returned. The device
/// is left at its power-on defaults, so the cached configuration must be
/// re-applied by the caller; only the cached power-control fields are
/// touched by the forced setup.
#[verifier::rlimit(100)]
#[verifier::spinoff_prover]
pub fn run_self_test<IFACE: Adxl372Interface, D: DelayProvider>(
    device: &mut Adxl372<IFACE>,
    delay: &mut D,
) -> (r: Result<SelfTestReport, Error<IFACE::Error>>)
    ensures
        ({
            let h0 = old(device).interface.history();
            let h1 = final(device).interface.history();
            &&& resets_in(h1) == resets_in(h0) + 2
            &&& h0.len() < h1.len()
            &&& h1.take(h0.len() as int) == h0
            &&& h1[h0.len() as int] == reset_op()
            &&& h1.last() == reset_op()
        }),
        final(device).config.timing_view() == old(device).config.timing_view(),
        final(device).config.measure_view() == old(device).config.measure_view(),
        r is Err ==> r matches Err(Error::Interface(_)),
        r matches Ok(rep) ==> ({
            let h0 = old(device).interface.history();
            let h1 = final(device).interface.history();
            let zs = z_reads(h1).skip(z_reads(h0).len() as int);
            &&& z_reads(h1).take(z_reads(h0).len() as int) == z_reads(h0)
            &&& rep.samples_per_window == window_len(zs)
            &&& rep.baseline_avg == window_avg(baseline_window(zs))
            &&& rep.stimulated_avg == window_avg(trailing_window(zs))
            &&& rep.delta == rep.stimulated_avg - rep.baseline_avg
            &&& rep.passed == (!rep.timed_out && rep.user_st && (rep.delta
                >= SELF_TEST_THRESHOLD_LSB || rep.delta <= -SELF_TEST_THRESHOLD_LSB))
            &&& (!rep.timed_out ==> rep.st_done)
            &&& (rep.timed_out ==> zs.len() == SELF_TEST_TIMEOUT_US / SAMPLE_INTERVAL_US)
        }),
        r matches Ok(rep) ==> self_test_shape(
            old(device).interface.history(),
            final(device).interface.history(),
            rep,
        ),
{
    let ghost h0 = device.interface.history();

    // Phases 1 and 2: reset, forced setup, clear, arm.
    match self_test_setup(device, delay) {
        Ok(()) => {},
        Err(err) => {
            return Err(err);
        },
    }
    let ghost h_loop0 = device.interface.history();

    // Phase 3: sampling under the time budget.
    let sampled = match sample_until_done(device, delay, Ghost(h0)) {
        Ok(out) => out,
        Err(err) => {
            return Err(err);
        },
    };
    let (stats, last_view, timed_out) = sampled;

    // Phase 4: disarm the trigger.
    let ghost h_d0 = device.interface.history();
    let bd0 = match device.interface.read_register(REG_SELF_TEST) {
        Ok(b) => b,
        Err(e) => {
            let ghost hp = device.interface.history();
            abort_reset(&mut device.interface);
            proof {
                lemma_abort(h0, hp);
            }
            return Err(Error::Interface(e));
        },
    };
    proof {
        lemma_mid_inv_push(h0, h_d0, BusOp::Read { addr: REG_SELF_TEST, value: bd0 });
        lemma_z_reads_push(h_d0, BusOp::Read { addr: REG_SELF_TEST, value: bd0 });
    }
    let vd = SelfTest::decode(bd0);
    let disarmed = SelfTest { st: false, ..vd };
    let bd1 = disarmed.encode();
    let ghost h_d1 = device.interface.history();
    match write_if_changed(&mut device.interface, REG_SELF_TEST, bd0, bd1) {
        Ok(()) => {
            proof {
                lemma_mid_inv_rmw(h0, h_d1, REG_SELF_TEST, bd0, bd1);
                lemma_z_reads_rmw(h_d1, REG_SELF_TEST, bd0, bd1);
                assert(device.interface.history() =~= h_d0 + rmw_ops(REG_SELF_TEST, bd0, bd1));
            }
        },
        Err(e) => {
            let ghost hp = device.interface.history();
            proof {
                lemma_mid_inv_push(h0, h_d1, BusOp::Write { addr: REG_SELF_TEST, value: bd1 });
            }
            abort_reset(&mut device.interface);
            proof {
                lemma_abort(h0, hp);
            }
            return Err(Error::Interface(e));
        },
    }

    // Phase 5: verdict, then the exit soft reset.
    let baseline_avg = stats.baseline_average();
    let stimulated_avg = stats.stimulated_average();
    let delta = stimulated_avg - baseline_avg;
    let samples_per_window = stats.samples_per_window();
    let passed = !timed_out && last_view.user_st && (delta >= SELF_TEST_THRESHOLD_LSB || delta
        <= -SELF_TEST_THRESHOLD_LSB);
    let report = SelfTestReport {
        passed,
        baseline_avg,
        stimulated_avg,
        delta,
        samples_per_window,
        st_done: last_view.st_done,
        user_st: last_view.user_st,
        timed_out,
    };
    let ghost h_f0 = device.interface.history();
    let fin = device.interface.write_register(REG_RESET, RESET_COMMAND);
    proof {
        lemma_abort(h0, h_f0);
        lemma_z_reads_push(h_f0, reset_op());
        let h1 = device.interface.history();
        assert(z_reads(h1) == z_reads(h0) + stats.seen());
        assert(z_reads(h1).take(z_reads(h0).len() as int) =~= z_reads(h0));
        assert(z_reads(h1).skip(z_reads(h0).len() as int) =~= stats.seen());
        let (bp, bc, ba): (u8, u8, u8) = choose|bp: u8, bc: u8, ba: u8|
            #![trigger PowerControl::decode_spec(bp), SelfTest::decode_spec(bc), SelfTest::decode_spec(ba)]
            h_loop0 == h0 + seq![reset_op()] + rmw_ops(
                REG_POWER_CTL,
                bp,
                power_update(
                    PowerControl::decode_spec(bp),
                    Some(PowerMode::Measure),
                    None,
                    Some(false),
                    Some(SettleFilter::Ms370),
                    None,
                    None,
                ).encode_spec(),
            ) + rmw_ops(
                REG_SELF_TEST,
                bc,
                (SelfTest { st: false, ..SelfTest::decode_spec(bc) }).encode_spec(),
            ) + rmw_ops(
                REG_SELF_TEST,
                ba,
                (SelfTest { st: true, ..SelfTest::decode_spec(ba) }).encode_spec(),
            );
        let h_pwr = h0.push(reset_op());
        let dpwr = rmw_ops(
            REG_POWER_CTL,
            bp,
            power_update(
                PowerControl::decode_spec(bp),
                Some(PowerMode::Measure),
                None,
                Some(false),
                Some(SettleFilter::Ms370),
                None,
                None,
            ).encode_spec(),
        );
        let dclear = rmw_ops(
            REG_SELF_TEST,
            bc,
            (SelfTest { st: false, ..SelfTest::decode_spec(bc) }).encode_spec(),
        );
        let h_c0 = h_pwr + dpwr;
        let h_a0 = h_c0 + dclear;
        assert(h_pwr =~= h0 + seq![reset_op()]);
        lemma_self_test_shape(
            h0,
            h_pwr,
            h_c0,
            h_a0,
            h_loop0,
            h_d0,
            h_f0,
            h1,
            bp,
            bc,
            ba,
            bd0,
            report,
            last_view,
        );
    }
    match fin {
        Ok(()) => Ok(report),
        Err(e) => Err(Error::Interface(e)),
    }
}

} // verus!
