//! High-level ADXL372 device driver: the configuration engine and the
//! device facade.
//!
//! [`Adxl372`] owns a bus interface and a cached [`Config`]. Configuration
//! changes go through read-modify-write cycles against the timing,
//! measurement and power-control registers: the register is read, the
//! requested fields are replaced, the cross-field Nyquist constraint is
//! checked before any write, and the byte is written back only when it
//! differs from what was read (write suppression). After every successful
//! cycle the cache is refreshed from the decode of the byte the register
//! now holds, so the cache never diverges from the device. The contracts
//! state all of this over the interface's operation history.

use vstd::prelude::*;

use crate::config::Config;
use crate::fifo::FifoSettings;
use crate::fifo::Sample;
use crate::interface::spi::SpiInterface;
use crate::params::FifoFormat;
use crate::params::FifoMode;
use crate::registers::fifo_entry_count;
use crate::registers::FifoControl;
use crate::registers::FifoEntriesUpper;
use crate::registers::Status;
use crate::registers::Status2;
use crate::registers::REG_DEVID_AD;
use crate::registers::REG_FIFO_CTL;
use crate::registers::REG_FIFO_DATA;
use crate::registers::REG_FIFO_ENTRIES2;
use crate::registers::REG_FIFO_SAMPLES;
use crate::registers::REG_STATUS;
use crate::registers::REG_XDATA_H;
use crate::self_test::SelfTestReport;
use crate::error::Error;
use crate::interface::last_reg_byte;
use crate::interface::lemma_last_reg_byte_concat;
use crate::interface::lemma_take_prefix_trans;
use crate::interface::lemma_writes_in_concat;
use crate::interface::resets_in;
use crate::interface::writes_in;
use crate::interface::Adxl372Interface;
use crate::interface::BusOp;
use crate::params::Bandwidth;
use crate::params::ExtClk;
use crate::params::ExtSync;
use crate::params::InstantOnThreshold;
use crate::params::LinkLoopMode;
use crate::params::LowNoise;
use crate::params::OutputDataRate;
use crate::params::PowerMode;
use crate::params::SettleFilter;
use crate::params::WakeUpRate;
use crate::registers::Measure;
use crate::registers::PowerControl;
use crate::registers::Timing;
use crate::registers::REG_MEASURE;
use crate::registers::REG_RESET;
use crate::registers::REG_POWER_CTL;
use crate::registers::REG_TIMING;
use crate::registers::RESET_COMMAND;

verus! {

/// The bus operations one read-modify-write cycle appends: a read that
/// returned `b0`, then a write of `b1` exactly when `b1` differs from `b0`
/// (write suppression).
pub open spec fn rmw_ops(addr: u8, b0: u8, b1: u8) -> Seq<BusOp> {
    if b1 == b0 {
        seq![BusOp::Read { addr, value: b0 }]
    } else {
        seq![BusOp::Read { addr, value: b0 }, BusOp::Write { addr, value: b1 }]
    }
}

/// A timing view with each requested field replaced and the others kept.
pub open spec fn timing_update(
    t: Timing,
    odr: Option<OutputDataRate>,
    wakeup_rate: Option<WakeUpRate>,
    ext_clk: Option<ExtClk>,
    ext_sync: Option<ExtSync>,
) -> Timing {
    Timing {
        odr: match odr {
            Some(v) => v,
            None => t.odr,
        },
        wake_up_rate: match wakeup_rate {
            Some(v) => v,
            None => t.wake_up_rate,
        },
        ext_clk: match ext_clk {
            Some(v) => v,
            None => t.ext_clk,
        },
        ext_sync: match ext_sync {
            Some(v) => v,
            None => t.ext_sync,
        },
    }
}

/// A measurement view with each requested field replaced and the others
/// kept.
pub open spec fn measure_update(
    m: Measure,
    linkloop: Option<LinkLoopMode>,
    low_noise: Option<LowNoise>,
    bandwidth: Option<Bandwidth>,
) -> Measure {
    Measure {
        bandwidth: match bandwidth {
            Some(v) => v,
            None => m.bandwidth,
        },
        low_noise: match low_noise {
            Some(v) => v,
            None => m.low_noise,
        },
        link_loop_mode: match linkloop {
            Some(v) => v,
            None => m.link_loop_mode,
        },
        autosleep: m.autosleep,
        user_or_disable: m.user_or_disable,
    }
}

/// A power-control view with each requested field replaced and the others,
/// the reserved bit included, kept.
pub open spec fn power_update(
    p: PowerControl,
    mode: Option<PowerMode>,
    hpf_disable: Option<bool>,
    lpf_disable: Option<bool>,
    filter_settle: Option<SettleFilter>,
    instant_on_threshold: Option<InstantOnThreshold>,
    i2c_high_speed_enable: Option<bool>,
) -> PowerControl {
    PowerControl {
        mode: match mode {
            Some(v) => v,
            None => p.mode,
        },
        hpf_disable: match hpf_disable {
            Some(v) => v,
            None => p.hpf_disable,
        },
        lpf_disable: match lpf_disable {
            Some(v) => v,
            None => p.lpf_disable,
        },
        filter_settle: match filter_settle {
            Some(v) => v,
            None => p.filter_settle,
        },
        instant_on_threshold: match instant_on_threshold {
            Some(v) => v,
            None => p.instant_on_threshold,
        },
        reserved: p.reserved,
        i2c_high_speed_enable: match i2c_high_speed_enable {
            Some(v) => v,
            None => p.i2c_high_speed_enable,
        },
    }
}

/// The cached timing fields decode from the byte most recently moved at the
/// timing register's address.
pub open spec fn timing_coherent(c: Config, h: Seq<BusOp>) -> bool {
    last_reg_byte(h, REG_TIMING) matches Some(b) && c.timing_view() == Timing::decode_spec(b)
}

/// The cached measurement fields decode from the byte most recently moved
/// at the measurement register's address.
pub open spec fn measure_coherent(c: Config, h: Seq<BusOp>) -> bool {
    last_reg_byte(h, REG_MEASURE) matches Some(b) && c.measure_view() == Measure::decode_spec(b)
}

/// The cached power-control fields decode from the byte most recently moved
/// at the power-control register's address (the register's reserved bit has
/// no cached field).
pub open spec fn power_coherent(c: Config, h: Seq<BusOp>) -> bool {
    last_reg_byte(h, REG_POWER_CTL) matches Some(b) && c.power_view(
        PowerControl::decode_spec(b).reserved,
    ) == PowerControl::decode_spec(b)
}

/// High-level synchronous driver for the ADXL372 accelerometer.
pub struct Adxl372<IFACE> {
    /// The bus interface the driver owns.
    pub interface: IFACE,
    /// The cached configuration; kept consistent with the device registers
    /// by the configuration engine.
    pub config: Config,
}

impl<IFACE> Adxl372<IFACE> {
    /// Creates a new driver instance from the provided bus interface.
    pub fn new(interface: IFACE, config: Config) -> (r: Self)
        ensures
            r.interface == interface,
            r.config == config,
    {
        Adxl372 { interface, config }
    }

    /// Consumes the driver and returns the owned interface.
    pub fn release(self) -> (r: (IFACE, Config))
        ensures
            r.0 == self.interface,
            r.1 == self.config,
    {
        (self.interface, self.config)
    }

    /// Provides mutable access to the underlying interface.
    pub fn interface_mut(&mut self) -> (r: &mut IFACE)
        ensures
            *r == old(self).interface,
            final(self).interface == *final(r),
            final(self).config == old(self).config,
    {
        &mut self.interface
    }

    /// Returns a shared reference to the active configuration.
    pub fn config(&self) -> (r: &Config)
        ensures
            *r == self.config,
    {
        &self.config
    }

    /// Returns a mutable reference to the active configuration.
    pub fn config_mut(&mut self) -> (r: &mut Config)
        ensures
            *r == old(self).config,
            final(self).config == *final(r),
            final(self).interface == old(self).interface,
    {
        &mut self.config
    }
}

/// Idempotence of whole-configuration application: when each register
/// already holds the byte a previous application of the same configuration
/// left behind — the bytes a faithful bus returns on the second
/// application's reads — every recomputed byte equals the byte read, so
/// every write is suppressed and the second application adds zero writes to
/// the history: it appends exactly the three reads.
pub proof fn lemma_configure_idempotent(config: Config, reserved: bool, h0: Seq<BusOp>)
    ensures
        ({
            let bt = config.timing_view().encode_spec();
            let bm = config.measure_view().encode_spec();
            let bp = config.power_view(reserved).encode_spec();
            let dt = rmw_ops(REG_TIMING, bt, config.timing_view().encode_spec());
            let dm = rmw_ops(REG_MEASURE, bm, config.measure_view().encode_spec());
            let dp = rmw_ops(
                REG_POWER_CTL,
                bp,
                config.power_view(PowerControl::decode_spec(bp).reserved).encode_spec(),
            );
            &&& dt == seq![BusOp::Read { addr: REG_TIMING, value: bt }]
            &&& dm == seq![BusOp::Read { addr: REG_MEASURE, value: bm }]
            &&& dp == seq![BusOp::Read { addr: REG_POWER_CTL, value: bp }]
            &&& writes_in(h0 + dt + dm + dp) == writes_in(h0)
        }),
{
    let bt = config.timing_view().encode_spec();
    let bm = config.measure_view().encode_spec();
    let bp = config.power_view(reserved).encode_spec();
    PowerControl::lemma_encode_decode(config.power_view(reserved));
    assert(PowerControl::decode_spec(bp).reserved == reserved);
    assert(config.power_view(PowerControl::decode_spec(bp).reserved) == config.power_view(
        reserved,
    ));
    let dt = rmw_ops(REG_TIMING, bt, config.timing_view().encode_spec());
    let dm = rmw_ops(REG_MEASURE, bm, config.measure_view().encode_spec());
    let dp = rmw_ops(
        REG_POWER_CTL,
        bp,
        config.power_view(PowerControl::decode_spec(bp).reserved).encode_spec(),
    );
    lemma_writes_in_concat(h0, dt);
    lemma_writes_in_concat(h0 + dt, dm);
    lemma_writes_in_concat(h0 + dt + dm, dp);
    assert(writes_in(dt) == 0) by {
        assert(dt.len() == 1 && dt.last() == (BusOp::Read { addr: REG_TIMING, value: bt }));
        assert(dt.drop_last() =~= Seq::<BusOp>::empty());
        assert(writes_in(dt.drop_last()) == 0);
    }
    assert(writes_in(dm) == 0) by {
        assert(dm.len() == 1 && dm.last() == (BusOp::Read { addr: REG_MEASURE, value: bm }));
        assert(dm.drop_last() =~= Seq::<BusOp>::empty());
        assert(writes_in(dm.drop_last()) == 0);
    }
    assert(writes_in(dp) == 0) by {
        assert(dp.len() == 1 && dp.last() == (BusOp::Read { addr: REG_POWER_CTL, value: bp }));
        assert(dp.drop_last() =~= Seq::<BusOp>::empty());
        assert(writes_in(dp.drop_last()) == 0);
    }
}

/// A push extends the reset count by one exactly when the operation is a
/// soft-reset command.
pub proof fn lemma_resets_in_push(h: Seq<BusOp>, op: BusOp)
    ensures
        resets_in(h.push(op)) == resets_in(h) + (if op == (BusOp::Write {
            addr: REG_RESET,
            value: RESET_COMMAND,
        }) {
            1nat
        } else {
            0nat
        }),
{
    assert(h.push(op).drop_last() =~= h);
    assert(h.push(op).last() == op);
}

/// A read-modify-write cycle at a register other than the reset register
/// adds no soft reset, whether or not its write was suppressed.
pub proof fn lemma_resets_in_rmw(h: Seq<BusOp>, addr: u8, b0: u8, b1: u8)
    requires
        addr != REG_RESET,
    ensures
        resets_in(h + rmw_ops(addr, b0, b1)) == resets_in(h),
        resets_in(h + rmw_ops(addr, b0, b1).skip(1)) == resets_in(h),
{
    let d = rmw_ops(addr, b0, b1);
    if b1 == b0 {
        assert(h + d =~= h.push(BusOp::Read { addr, value: b0 }));
        lemma_resets_in_push(h, BusOp::Read { addr, value: b0 });
        assert(h + d.skip(1) =~= h);
    } else {
        assert(h + d =~= h.push(BusOp::Read { addr, value: b0 }).push(
            BusOp::Write { addr, value: b1 },
        ));
        lemma_resets_in_push(h, BusOp::Read { addr, value: b0 });
        lemma_resets_in_push(
            h.push(BusOp::Read { addr, value: b0 }),
            BusOp::Write { addr, value: b1 },
        );
        assert(h + d.skip(1) =~= h.push(BusOp::Write { addr, value: b1 }));
        lemma_resets_in_push(h, BusOp::Write { addr, value: b1 });
    }
}

/// One read-modify-write cycle leaves `b1` as the most recent byte at its
/// own address and touches no other address.
pub proof fn lemma_last_reg_byte_rmw(addr: u8, b0: u8, b1: u8, x: u8)
    ensures
        last_reg_byte(rmw_ops(addr, b0, b1), x) == if x == addr {
            Some(b1)
        } else {
            None::<u8>
        },
{
    reveal_with_fuel(last_reg_byte, 4);
    let s = rmw_ops(addr, b0, b1);
    assert(last_reg_byte(Seq::<BusOp>::empty(), x) == None::<u8>);
    if b1 == b0 {
        assert(s.len() == 1);
        assert(s.last() == (BusOp::Read { addr, value: b0 }));
        assert(s.drop_last() =~= Seq::<BusOp>::empty());
        assert(last_reg_byte(s.drop_last(), x) == None::<u8>);
    } else {
        assert(s.last() == (BusOp::Write { addr, value: b1 }));
        assert(s.drop_last() =~= seq![BusOp::Read { addr, value: b0 }]);
        assert(s.drop_last().drop_last() =~= Seq::<BusOp>::empty());
        assert(s.drop_last().last() == (BusOp::Read { addr, value: b0 }));
        assert(last_reg_byte(s.drop_last().drop_last(), x) == None::<u8>);
    }
}

/// Issues the write half of a read-modify-write cycle: writes `b1` to the
/// register exactly when it differs from the byte `b0` that was read.
pub(crate) fn write_if_changed<IFACE: Adxl372Interface>(iface: &mut IFACE, addr: u8, b0: u8, b1: u8) -> (r:
    Result<(), IFACE::Error>)
    ensures
        r is Ok ==> final(iface).history() == old(iface).history() + rmw_ops(addr, b0, b1).skip(1),
        r is Err ==> b1 != b0 && final(iface).history() == old(iface).history().push(
            BusOp::Write { addr, value: b1 },
        ),
{
    if b1 != b0 {
        let outcome = iface.write_register(addr, b1);
        proof {
            assert(old(iface).history().push(BusOp::Write { addr, value: b1 }) =~= old(
                iface,
            ).history() + rmw_ops(addr, b0, b1).skip(1));
        }
        outcome
    } else {
        proof {
            assert(old(iface).history() + rmw_ops(addr, b0, b1).skip(1) =~= old(iface).history());
        }
        Ok(())
    }
}

impl<IFACE: Adxl372Interface> Adxl372<IFACE> {
    /// Updates timing-related register fields through one read-modify-write
    /// cycle: the prospective ODR is validated against the cached bandwidth
    /// before any write, the byte is written only when it changes, and the
    /// cached timing fields are refreshed from the decode of the byte the
    /// register now holds.
    #[verifier::rlimit(100)]
    #[verifier::spinoff_prover]
    pub fn configure_timing(
        &mut self,
        odr: Option<OutputDataRate>,
        wakeup_rate: Option<WakeUpRate>,
        ext_clk: Option<ExtClk>,
        ext_sync: Option<ExtSync>,
    ) -> (r: Result<(), Error<IFACE::Error>>)
        ensures
            r is Ok ==> ({
                let h0 = old(self).interface.history();
                let h1 = final(self).interface.history();
                let b0 = h1[h0.len() as int].op_byte();
                let t1 = timing_update(Timing::decode_spec(b0), odr, wakeup_rate, ext_clk, ext_sync);
                &&& h1 == h0 + rmw_ops(REG_TIMING, b0, t1.encode_spec())
                &&& final(self).config == old(self).config.with_timing(t1)
                &&& final(self).config.nyquist_ok()
                &&& timing_coherent(final(self).config, h1)
            }),
            r matches Err(Error::InvalidConfig) ==> ({
                let h0 = old(self).interface.history();
                let h1 = final(self).interface.history();
                let b0 = h1[h0.len() as int].op_byte();
                let t1 = timing_update(Timing::decode_spec(b0), odr, wakeup_rate, ext_clk, ext_sync);
                &&& h1 == h0.push(BusOp::Read { addr: REG_TIMING, value: b0 })
                &&& !old(self).config.with_timing(t1).nyquist_ok()
                &&& final(self).config == old(self).config
            }),
            r matches Err(Error::Interface(_)) ==> ({
                let h0 = old(self).interface.history();
                let h1 = final(self).interface.history();
                &&& final(self).config == old(self).config
                &&& h1.take(h0.len() as int) == h0
                &&& h0.len() <= h1.len() <= h0.len() + 2
                &&& forall|i: int| h0.len() <= i < h1.len() ==> #[trigger] h1[i].op_addr()
                    == REG_TIMING
            }),
            !(r matches Err(Error::NotReady)),
    {
        let ghost h0 = self.interface.history();
        let b0 = match self.interface.read_register(REG_TIMING) {
            Ok(b) => b,
            Err(e) => {
                proof {
                    assert(self.interface.history().take(h0.len() as int) =~= h0);
                }
                return Err(Error::Interface(e));
            },
        };
        let t0 = Timing::decode(b0);
        let t1 = Timing {
            odr: match odr {
                Some(v) => v,
                None => t0.odr,
            },
            wake_up_rate: match wakeup_rate {
                Some(v) => v,
                None => t0.wake_up_rate,
            },
            ext_clk: match ext_clk {
                Some(v) => v,
                None => t0.ext_clk,
            },
            ext_sync: match ext_sync {
                Some(v) => v,
                None => t0.ext_sync,
            },
        };
        if self.config.bandwidth.max_hz() * 2 > t1.odr.hz() {
            return Err(Error::InvalidConfig);
        }
        let b1 = t1.encode();
        match write_if_changed(&mut self.interface, REG_TIMING, b0, b1) {
            Ok(()) => {},
            Err(e) => {
                proof {
                    assert(self.interface.history().take(h0.len() as int) =~= h0);
                }
                return Err(Error::Interface(e));
            },
        }
        let tf = Timing::decode(b1);
        proof {
            Timing::lemma_encode_decode(t1);
            assert(self.interface.history() =~= h0 + rmw_ops(REG_TIMING, b0, t1.encode_spec()));
        }
        self.config.odr = tf.odr;
        self.config.wake_up_rate = tf.wake_up_rate;
        self.config.ext_clk = tf.ext_clk;
        self.config.ext_sync = tf.ext_sync;
        Ok(())
    }

    /// Adjusts measurement bandwidth, noise, and link/loop settings through
    /// one read-modify-write cycle: the prospective bandwidth is validated
    /// against the cached ODR before any write, the byte is written only
    /// when it changes, and the cached measurement fields are refreshed
    /// from the decode of the byte the register now holds.
    #[verifier::rlimit(100)]
    #[verifier::spinoff_prover]
    pub fn configure_measurement(
        &mut self,
        linkloop: Option<LinkLoopMode>,
        low_noise: Option<LowNoise>,
        bandwidth: Option<Bandwidth>,
    ) -> (r: Result<(), Error<IFACE::Error>>)
        ensures
            r is Ok ==> ({
                let h0 = old(self).interface.history();
                let h1 = final(self).interface.history();
                let b0 = h1[h0.len() as int].op_byte();
                let m1 = measure_update(Measure::decode_spec(b0), linkloop, low_noise, bandwidth);
                &&& h1 == h0 + rmw_ops(REG_MEASURE, b0, m1.encode_spec())
                &&& final(self).config == old(self).config.with_measure(m1)
                &&& final(self).config.nyquist_ok()
                &&& measure_coherent(final(self).config, h1)
            }),
            r matches Err(Error::InvalidConfig) ==> ({
                let h0 = old(self).interface.history();
                let h1 = final(self).interface.history();
                let b0 = h1[h0.len() as int].op_byte();
                let m1 = measure_update(Measure::decode_spec(b0), linkloop, low_noise, bandwidth);
                &&& h1 == h0.push(BusOp::Read { addr: REG_MEASURE, value: b0 })
                &&& !old(self).config.with_measure(m1).nyquist_ok()
                &&& final(self).config == old(self).config
            }),
            r matches Err(Error::Interface(_)) ==> ({
                let h0 = old(self).interface.history();
                let h1 = final(self).interface.history();
                &&& final(self).config == old(self).config
                &&& h1.take(h0.len() as int) == h0
                &&& h0.len() <= h1.len() <= h0.len() + 2
                &&& forall|i: int| h0.len() <= i < h1.len() ==> #[trigger] h1[i].op_addr()
                    == REG_MEASURE
            }),
            !(r matches Err(Error::NotReady)),
    {
        let ghost h0 = self.interface.history();
        let b0 = match self.interface.read_register(REG_MEASURE) {
            Ok(b) => b,
            Err(e) => {
                proof {
                    assert(self.interface.history().take(h0.len() as int) =~= h0);
                }
                return Err(Error::Interface(e));
            },
        };
        let m0 = Measure::decode(b0);
        let m1 = Measure {
            bandwidth: match bandwidth {
                Some(v) => v,
                None => m0.bandwidth,
            },
            low_noise: match low_noise {
                Some(v) => v,
                None => m0.low_noise,
            },
            link_loop_mode: match linkloop {
                Some(v) => v,
                None => m0.link_loop_mode,
            },
            autosleep: m0.autosleep,
            user_or_disable: m0.user_or_disable,
        };
        if m1.bandwidth.max_hz() * 2 > self.config.odr.hz() {
            return Err(Error::InvalidConfig);
        }
        let b1 = m1.encode();
        match write_if_changed(&mut self.interface, REG_MEASURE, b0, b1) {
            Ok(()) => {},
            Err(e) => {
                proof {
                    assert(self.interface.history().take(h0.len() as int) =~= h0);
                }
                return Err(Error::Interface(e));
            },
        }
        let mf = Measure::decode(b1);
        proof {
            Measure::lemma_encode_decode(m1);
            assert(self.interface.history() =~= h0 + rmw_ops(REG_MEASURE, b0, m1.encode_spec()));
        }
        self.config.bandwidth = mf.bandwidth;
        self.config.low_noise = mf.low_noise;
        self.config.link_loop_mode = mf.link_loop_mode;
        self.config.autosleep = mf.autosleep;
        self.config.user_or_disable = mf.user_or_disable;
        Ok(())
    }

    /// Updates power-control register fields through one read-modify-write
    /// cycle: the byte is written only when it changes and the cached
    /// power-control fields are refreshed from the decode of the byte the
    /// register now holds. No cross-field constraint involves this
    /// register, so no validation error is possible.
    #[verifier::rlimit(100)]
    #[verifier::spinoff_prover]
    pub fn configure_power(
        &mut self,
        mode: Option<PowerMode>,
        hpf_disable: Option<bool>,
        lpf_disable: Option<bool>,
        filter_settle: Option<SettleFilter>,
        instant_on_threshold: Option<InstantOnThreshold>,
        i2c_high_speed_enable: Option<bool>,
    ) -> (r: Result<(), Error<IFACE::Error>>)
        ensures
            r is Ok ==> ({
                let h0 = old(self).interface.history();
                let h1 = final(self).interface.history();
                let b0 = h1[h0.len() as int].op_byte();
                let p1 = power_update(
                    PowerControl::decode_spec(b0),
                    mode,
                    hpf_disable,
                    lpf_disable,
                    filter_settle,
                    instant_on_threshold,
                    i2c_high_speed_enable,
                );
                &&& h1 == h0 + rmw_ops(REG_POWER_CTL, b0, p1.encode_spec())
                &&& final(self).config == old(self).config.with_power(p1)
                &&& power_coherent(final(self).config, h1)
            }),
            r is Err ==> r matches Err(Error::Interface(_)),
            r matches Err(Error::Interface(_)) ==> ({
                let h0 = old(self).interface.history();
                let h1 = final(self).interface.history();
                &&& final(self).config == old(self).config
                &&& h1.take(h0.len() as int) == h0
                &&& h0.len() <= h1.len() <= h0.len() + 2
                &&& forall|i: int| h0.len() <= i < h1.len() ==> #[trigger] h1[i].op_addr()
                    == REG_POWER_CTL
            }),
    {
        let ghost h0 = self.interface.history();
        let b0 = match self.interface.read_register(REG_POWER_CTL) {
            Ok(b) => b,
            Err(e) => {
                proof {
                    assert(self.interface.history().take(h0.len() as int) =~= h0);
                }
                return Err(Error::Interface(e));
            },
        };
        let p0 = PowerControl::decode(b0);
        let p1 = PowerControl {
            mode: match mode {
                Some(v) => v,
                None => p0.mode,
            },
            hpf_disable: match hpf_disable {
                Some(v) => v,
                None => p0.hpf_disable,
            },
            lpf_disable: match lpf_disable {
                Some(v) => v,
                None => p0.lpf_disable,
            },
            filter_settle: match filter_settle {
                Some(v) => v,
                None => p0.filter_settle,
            },
            instant_on_threshold: match instant_on_threshold {
                Some(v) => v,
                None => p0.instant_on_threshold,
            },
            reserved: p0.reserved,
            i2c_high_speed_enable: match i2c_high_speed_enable {
                Some(v) => v,
                None => p0.i2c_high_speed_enable,
            },
        };
        let b1 = p1.encode();
        match write_if_changed(&mut self.interface, REG_POWER_CTL, b0, b1) {
            Ok(()) => {},
            Err(e) => {
                proof {
                    assert(self.interface.history().take(h0.len() as int) =~= h0);
                }
                return Err(Error::Interface(e));
            },
        }
        let pf = PowerControl::decode(b1);
        proof {
            PowerControl::lemma_encode_decode(p1);
            assert(self.interface.history() =~= h0 + rmw_ops(REG_POWER_CTL, b0, p1.encode_spec()));
        }
        self.config.power_mode = pf.mode;
        self.config.hpf_disable = pf.hpf_disable;
        self.config.lpf_disable = pf.lpf_disable;
        self.config.filter_settle = pf.filter_settle;
        self.config.instant_on_threshold = pf.instant_on_threshold;
        self.config.i2c_high_speed_enable = pf.i2c_high_speed_enable;
        Ok(())
    }

    /// Places the sensor in the requested power mode through a partial
    /// power-control update.
    pub fn set_power_mode(&mut self, mode: PowerMode) -> (r: Result<(), Error<IFACE::Error>>)
        ensures
            r is Ok ==> ({
                let h0 = old(self).interface.history();
                let h1 = final(self).interface.history();
                let b0 = h1[h0.len() as int].op_byte();
                let p1 = power_update(
                    PowerControl::decode_spec(b0),
                    Some(mode),
                    None,
                    None,
                    None,
                    None,
                    None,
                );
                &&& h1 == h0 + rmw_ops(REG_POWER_CTL, b0, p1.encode_spec())
                &&& final(self).config == old(self).config.with_power(p1)
                &&& final(self).config.power_mode == mode
                &&& power_coherent(final(self).config, h1)
            }),
            r is Err ==> r matches Err(Error::Interface(_)),
            r matches Err(Error::Interface(_)) ==> ({
                let h0 = old(self).interface.history();
                let h1 = final(self).interface.history();
                &&& final(self).config == old(self).config
                &&& h1.take(h0.len() as int) == h0
                &&& h0.len() <= h1.len() <= h0.len() + 2
            }),
    {
        self.configure_power(Some(mode), None, None, None, None, None)
    }

    /// Sets the instant-on threshold selection through a partial
    /// power-control update.
    pub fn set_instant_on_threshold(&mut self, threshold: InstantOnThreshold) -> (r: Result<
        (),
        Error<IFACE::Error>,
    >)
        ensures
            r is Ok ==> ({
                let h0 = old(self).interface.history();
                let h1 = final(self).interface.history();
                let b0 = h1[h0.len() as int].op_byte();
                let p1 = power_update(
                    PowerControl::decode_spec(b0),
                    None,
                    None,
                    None,
                    None,
                    Some(threshold),
                    None,
                );
                &&& h1 == h0 + rmw_ops(REG_POWER_CTL, b0, p1.encode_spec())
                &&& final(self).config == old(self).config.with_power(p1)
                &&& final(self).config.instant_on_threshold == threshold
                &&& power_coherent(final(self).config, h1)
            }),
            r is Err ==> r matches Err(Error::Interface(_)),
            r matches Err(Error::Interface(_)) ==> ({
                let h0 = old(self).interface.history();
                let h1 = final(self).interface.history();
                &&& final(self).config == old(self).config
                &&& h1.take(h0.len() as int) == h0
                &&& h0.len() <= h1.len() <= h0.len() + 2
            }),
    {
        self.configure_power(None, None, None, None, Some(threshold), None)
    }

    /// Configures the filter settle timing through a partial power-control
    /// update.
    pub fn set_filter_settle(&mut self, settle: SettleFilter) -> (r: Result<
        (),
        Error<IFACE::Error>,
    >)
        ensures
            r is Ok ==> ({
                let h0 = old(self).interface.history();
                let h1 = final(self).interface.history();
                let b0 = h1[h0.len() as int].op_byte();
                let p1 = power_update(
                    PowerControl::decode_spec(b0),
                    None,
                    None,
                    None,
                    Some(settle),
                    None,
                    None,
                );
                &&& h1 == h0 + rmw_ops(REG_POWER_CTL, b0, p1.encode_spec())
                &&& final(self).config == old(self).config.with_power(p1)
                &&& final(self).config.filter_settle == settle
                &&& power_coherent(final(self).config, h1)
            }),
            r is Err ==> r matches Err(Error::Interface(_)),
            r matches Err(Error::Interface(_)) ==> ({
                let h0 = old(self).interface.history();
                let h1 = final(self).interface.history();
                &&& final(self).config == old(self).config
                &&& h1.take(h0.len() as int) == h0
                &&& h0.len() <= h1.len() <= h0.len() + 2
            }),
    {
        self.configure_power(None, None, None, Some(settle), None, None)
    }

    /// One read-modify-write cycle of the timing register against a whole
    /// desired configuration, refreshing the cached timing fields.
    #[verifier::rlimit(100)]
    #[verifier::spinoff_prover]
    fn apply_timing_cycle(&mut self, config: Config) -> (r: Result<(), IFACE::Error>)
        ensures
            r is Ok ==> ({
                let h0 = old(self).interface.history();
                let h1 = final(self).interface.history();
                let b0 = h1[h0.len() as int].op_byte();
                &&& h1 == h0 + rmw_ops(REG_TIMING, b0, config.timing_view().encode_spec())
                &&& final(self).config == old(self).config.with_timing(config.timing_view())
                &&& timing_coherent(final(self).config, h1)
            }),
            r is Err ==> ({
                let h0 = old(self).interface.history();
                let h1 = final(self).interface.history();
                &&& final(self).config == old(self).config
                &&& h1.take(h0.len() as int) == h0
                &&& h0.len() <= h1.len() <= h0.len() + 2
            }),
            forall|x: u8|
                x != REG_TIMING ==> #[trigger] last_reg_byte(final(self).interface.history(), x)
                    == last_reg_byte(old(self).interface.history(), x),
    {
        let ghost h0 = self.interface.history();
        let b0 = match self.interface.read_register(REG_TIMING) {
            Ok(b) => b,
            Err(e) => {
                proof {
                    assert(self.interface.history().take(h0.len() as int) =~= h0);
                }
                return Err(e);
            },
        };
        let t_des = Timing {
            ext_sync: config.ext_sync,
            ext_clk: config.ext_clk,
            wake_up_rate: config.wake_up_rate,
            odr: config.odr,
        };
        let b1 = t_des.encode();
        proof {
            assert(t_des == config.timing_view());
        }
        match write_if_changed(&mut self.interface, REG_TIMING, b0, b1) {
            Ok(()) => {},
            Err(e) => {
                proof {
                    let d = rmw_ops(REG_TIMING, b0, t_des.encode_spec());
                    assert(self.interface.history() =~= h0 + d);
                    assert(self.interface.history().take(h0.len() as int) =~= h0);
                    assert forall|x: u8| x != REG_TIMING implies #[trigger] last_reg_byte(
                        self.interface.history(),
                        x,
                    ) == last_reg_byte(h0, x) by {
                        lemma_last_reg_byte_rmw(REG_TIMING, b0, t_des.encode_spec(), x);
                        lemma_last_reg_byte_concat(h0, d, x);
                    }
                }
                return Err(e);
            },
        }
        let tf = Timing::decode(b1);
        proof {
            Timing::lemma_encode_decode(t_des);
            let d = rmw_ops(REG_TIMING, b0, t_des.encode_spec());
            assert(self.interface.history() =~= h0 + d);
            lemma_last_reg_byte_rmw(REG_TIMING, b0, t_des.encode_spec(), REG_TIMING);
            lemma_last_reg_byte_concat(h0, d, REG_TIMING);
            assert forall|x: u8| x != REG_TIMING implies #[trigger] last_reg_byte(
                self.interface.history(),
                x,
            ) == last_reg_byte(h0, x) by {
                lemma_last_reg_byte_rmw(REG_TIMING, b0, t_des.encode_spec(), x);
                lemma_last_reg_byte_concat(h0, d, x);
            }
        }
        self.config.odr = tf.odr;
        self.config.wake_up_rate = tf.wake_up_rate;
        self.config.ext_clk = tf.ext_clk;
        self.config.ext_sync = tf.ext_sync;
        Ok(())
    }

    /// One read-modify-write cycle of the measurement register against a
    /// whole desired configuration, refreshing the cached measurement
    /// fields.
    #[verifier::rlimit(100)]
    #[verifier::spinoff_prover]
    fn apply_measure_cycle(&mut self, config: Config) -> (r: Result<(), IFACE::Error>)
        ensures
            r is Ok ==> ({
                let h0 = old(self).interface.history();
                let h1 = final(self).interface.history();
                let b0 = h1[h0.len() as int].op_byte();
                &&& h1 == h0 + rmw_ops(REG_MEASURE, b0, config.measure_view().encode_spec())
                &&& final(self).config == old(self).config.with_measure(config.measure_view())
                &&& measure_coherent(final(self).config, h1)
            }),
            r is Err ==> ({
                let h0 = old(self).interface.history();
                let h1 = final(self).interface.history();
                &&& final(self).config == old(self).config
                &&& h1.take(h0.len() as int) == h0
                &&& h0.len() <= h1.len() <= h0.len() + 2
            }),
            forall|x: u8|
                x != REG_MEASURE ==> #[trigger] last_reg_byte(final(self).interface.history(), x)
                    == last_reg_byte(old(self).interface.history(), x),
    {
        let ghost h0 = self.interface.history();
        let b0 = match self.interface.read_register(REG_MEASURE) {
            Ok(b) => b,
            Err(e) => {
                proof {
                    assert(self.interface.history().take(h0.len() as int) =~= h0);
                }
                return Err(e);
            },
        };
        let m_des = Measure {
            bandwidth: config.bandwidth,
            low_noise: config.low_noise,
            link_loop_mode: config.link_loop_mode,
            autosleep: config.autosleep,
            user_or_disable: config.user_or_disable,
        };
        let b1 = m_des.encode();
        proof {
            assert(m_des == config.measure_view());
        }
        match write_if_changed(&mut self.interface, REG_MEASURE, b0, b1) {
            Ok(()) => {},
            Err(e) => {
                proof {
                    let d = rmw_ops(REG_MEASURE, b0, m_des.encode_spec());
                    assert(self.interface.history() =~= h0 + d);
                    assert(self.interface.history().take(h0.len() as int) =~= h0);
                    assert forall|x: u8| x != REG_MEASURE implies #[trigger] last_reg_byte(
                        self.interface.history(),
                        x,
                    ) == last_reg_byte(h0, x) by {
                        lemma_last_reg_byte_rmw(REG_MEASURE, b0, m_des.encode_spec(), x);
                        lemma_last_reg_byte_concat(h0, d, x);
                    }
                }
                return Err(e);
            },
        }
        let mf = Measure::decode(b1);
        proof {
            Measure::lemma_encode_decode(m_des);
            let d = rmw_ops(REG_MEASURE, b0, m_des.encode_spec());
            assert(self.interface.history() =~= h0 + d);
            lemma_last_reg_byte_rmw(REG_MEASURE, b0, m_des.encode_spec(), REG_MEASURE);
            lemma_last_reg_byte_concat(h0, d, REG_MEASURE);
            assert forall|x: u8| x != REG_MEASURE implies #[trigger] last_reg_byte(
                self.interface.history(),
                x,
            ) == last_reg_byte(h0, x) by {
                lemma_last_reg_byte_rmw(REG_MEASURE, b0, m_des.encode_spec(), x);
                lemma_last_reg_byte_concat(h0, d, x);
            }
        }
        self.config.bandwidth = mf.bandwidth;
        self.config.low_noise = mf.low_noise;
        self.config.link_loop_mode = mf.link_loop_mode;
        self.config.autosleep = mf.autosleep;
        self.config.user_or_disable = mf.user_or_disable;
        Ok(())
    }

    /// One read-modify-write cycle of the power-control register against a
    /// whole desired configuration, preserving the register's reserved bit
    /// and refreshing the cached power-control fields.
    #[verifier::rlimit(100)]
    #[verifier::spinoff_prover]
    fn apply_power_cycle(&mut self, config: Config) -> (r: Result<(), IFACE::Error>)
        ensures
            r is Ok ==> ({
                let h0 = old(self).interface.history();
                let h1 = final(self).interface.history();
                let b0 = h1[h0.len() as int].op_byte();
                &&& h1 == h0 + rmw_ops(
                    REG_POWER_CTL,
                    b0,
                    config.power_view(PowerControl::decode_spec(b0).reserved).encode_spec(),
                )
                &&& final(self).config == old(self).config.with_power(config.power_view(false))
                &&& power_coherent(final(self).config, h1)
            }),
            r is Err ==> ({
                let h0 = old(self).interface.history();
                let h1 = final(self).interface.history();
                &&& final(self).config == old(self).config
                &&& h1.take(h0.len() as int) == h0
                &&& h0.len() <= h1.len() <= h0.len() + 2
            }),
            forall|x: u8|
                x != REG_POWER_CTL ==> #[trigger] last_reg_byte(final(self).interface.history(), x)
                    == last_reg_byte(old(self).interface.history(), x),
    {
        let ghost h0 = self.interface.history();
        let b0 = match self.interface.read_register(REG_POWER_CTL) {
            Ok(b) => b,
            Err(e) => {
                proof {
                    assert(self.interface.history().take(h0.len() as int) =~= h0);
                }
                return Err(e);
            },
        };
        let p0 = PowerControl::decode(b0);
        let p_des = PowerControl {
            mode: config.power_mode,
            hpf_disable: config.hpf_disable,
            lpf_disable: config.lpf_disable,
            filter_settle: config.filter_settle,
            instant_on_threshold: config.instant_on_threshold,
            reserved: p0.reserved,
            i2c_high_speed_enable: config.i2c_high_speed_enable,
        };
        let b1 = p_des.encode();
        proof {
            assert(p_des == config.power_view(PowerControl::decode_spec(b0).reserved));
        }
        match write_if_changed(&mut self.interface, REG_POWER_CTL, b0, b1) {
            Ok(()) => {},
            Err(e) => {
                proof {
                    let d = rmw_ops(REG_POWER_CTL, b0, p_des.encode_spec());
                    assert(self.interface.history() =~= h0 + d);
                    assert(self.interface.history().take(h0.len() as int) =~= h0);
                    assert forall|x: u8| x != REG_POWER_CTL implies #[trigger] last_reg_byte(
                        self.interface.history(),
                        x,
                    ) == last_reg_byte(h0, x) by {
                        lemma_last_reg_byte_rmw(REG_POWER_CTL, b0, p_des.encode_spec(), x);
                        lemma_last_reg_byte_concat(h0, d, x);
                    }
                }
                return Err(e);
            },
        }
        let pf = PowerControl::decode(b1);
        proof {
            PowerControl::lemma_encode_decode(p_des);
            let d = rmw_ops(REG_POWER_CTL, b0, p_des.encode_spec());
            assert(self.interface.history() =~= h0 + d);
            lemma_last_reg_byte_rmw(REG_POWER_CTL, b0, p_des.encode_spec(), REG_POWER_CTL);
            lemma_last_reg_byte_concat(h0, d, REG_POWER_CTL);
            assert forall|x: u8| x != REG_POWER_CTL implies #[trigger] last_reg_byte(
                self.interface.history(),
                x,
            ) == last_reg_byte(h0, x) by {
                lemma_last_reg_byte_rmw(REG_POWER_CTL, b0, p_des.encode_spec(), x);
                lemma_last_reg_byte_concat(h0, d, x);
            }
        }
        self.config.power_mode = pf.mode;
        self.config.hpf_disable = pf.hpf_disable;
        self.config.lpf_disable = pf.lpf_disable;
        self.config.filter_settle = pf.filter_settle;
        self.config.instant_on_threshold = pf.instant_on_threshold;
        self.config.i2c_high_speed_enable = pf.i2c_high_speed_enable;
        Ok(())
    }

    /// Applies a whole configuration to the device.
    ///
    /// The configuration is validated first; an invalid one is rejected
    /// before any bus traffic. Then three read-modify-write cycles run in a
    /// fixed order — timing, measurement, power control — writing each
    /// register only when its byte actually changes, and the cache is
    /// refreshed after each cycle from the decode of the byte the register
    /// now holds. On a bus failure the cycles completed so far keep their
    /// refreshed cache entries and the rest of the cache is untouched; no
    /// partial write occurs within a cycle.
    #[verifier::rlimit(100)]
    #[verifier::spinoff_prover]
    pub fn configure(&mut self, config: Config) -> (r: Result<(), Error<IFACE::Error>>)
        ensures
            !config.nyquist_ok() ==> r matches Err(Error::InvalidConfig),
            r matches Err(Error::InvalidConfig) ==> ({
                &&& !config.nyquist_ok()
                &&& final(self).config == old(self).config
                &&& final(self).interface.history() == old(self).interface.history()
            }),
            r is Ok ==> ({
                let h0 = old(self).interface.history();
                let h1 = final(self).interface.history();
                let bt = h1[h0.len() as int].op_byte();
                let dt = rmw_ops(REG_TIMING, bt, config.timing_view().encode_spec());
                let bm = h1[(h0.len() + dt.len()) as int].op_byte();
                let dm = rmw_ops(REG_MEASURE, bm, config.measure_view().encode_spec());
                let bp = h1[(h0.len() + dt.len() + dm.len()) as int].op_byte();
                let dp = rmw_ops(
                    REG_POWER_CTL,
                    bp,
                    config.power_view(PowerControl::decode_spec(bp).reserved).encode_spec(),
                );
                &&& config.nyquist_ok()
                &&& h1 == h0 + dt + dm + dp
                &&& final(self).config == config
                &&& timing_coherent(final(self).config, h1)
                &&& measure_coherent(final(self).config, h1)
                &&& power_coherent(final(self).config, h1)
            }),
            r matches Err(Error::Interface(_)) ==> ({
                let h0 = old(self).interface.history();
                let h1 = final(self).interface.history();
                &&& h1.take(h0.len() as int) == h0
                &&& h1.len() <= h0.len() + 6
                &&& (final(self).config.timing_view() == old(self).config.timing_view() || (
                final(self).config.timing_view() == config.timing_view() && timing_coherent(
                    final(self).config,
                    h1,
                )))
                &&& (final(self).config.measure_view() == old(self).config.measure_view() || (
                final(self).config.measure_view() == config.measure_view() && measure_coherent(
                    final(self).config,
                    h1,
                )))
                &&& (final(self).config.power_view(false) == old(self).config.power_view(false)
                    || (final(self).config.power_view(false) == config.power_view(false)
                    && power_coherent(final(self).config, h1)))
            }),
            !(r matches Err(Error::NotReady)),
    {
        match config.validate() {
            Ok(()) => {},
            Err(_) => {
                return Err(Error::InvalidConfig);
            },
        }
        let ghost h0 = self.interface.history();
        match self.apply_timing_cycle(config) {
            Ok(()) => {},
            Err(e) => {
                return Err(Error::Interface(e));
            },
        }
        let ghost h1 = self.interface.history();
        proof {
            assert(h1.take(h0.len() as int) =~= h0);
        }
        match self.apply_measure_cycle(config) {
            Ok(()) => {},
            Err(e) => {
                proof {
                    lemma_take_prefix_trans(h0, h1, self.interface.history());
                }
                return Err(Error::Interface(e));
            },
        }
        let ghost h2 = self.interface.history();
        proof {
            assert(h2.take(h1.len() as int) =~= h1);
            lemma_take_prefix_trans(h0, h1, h2);
        }
        match self.apply_power_cycle(config) {
            Ok(()) => {},
            Err(e) => {
                proof {
                    lemma_take_prefix_trans(h0, h2, self.interface.history());
                }
                return Err(Error::Interface(e));
            },
        }
        let ghost h3 = self.interface.history();
        proof {
            let dt = rmw_ops(REG_TIMING, h1[h0.len() as int].op_byte(), config.timing_view().encode_spec());
            let dm = rmw_ops(REG_MEASURE, h2[h1.len() as int].op_byte(), config.measure_view().encode_spec());
            let bp = h3[h2.len() as int].op_byte();
            let dp = rmw_ops(
                REG_POWER_CTL,
                bp,
                config.power_view(PowerControl::decode_spec(bp).reserved).encode_spec(),
            );
            assert(h3 =~= h0 + dt + dm + dp);
            assert(h3.take(h2.len() as int) =~= h2);
            lemma_take_prefix_trans(h0, h2, h3);
            assert(h3[h0.len() as int] == h1[h0.len() as int]);
            assert(h1.len() == h0.len() + dt.len());
            assert(h3[(h0.len() + dt.len()) as int] == h2[h1.len() as int]);
            assert(h2.len() == h1.len() + dm.len());
            assert(h3[(h0.len() + dt.len() + dm.len()) as int] == h3[h2.len() as int]);
            assert(self.config == config);
        }
        Ok(())
    }

    /// Initializes the sensor by validating the current configuration; no
    /// bus traffic is performed.
    pub fn init(&mut self) -> (r: Result<(), Error<IFACE::Error>>)
        ensures
            r is Ok <==> old(self).config.nyquist_ok(),
            r is Err ==> r matches Err(Error::InvalidConfig),
            final(self).config == old(self).config,
            final(self).interface.history() == old(self).interface.history(),
    {
        match self.config.validate() {
            Ok(()) => Ok(()),
            Err(_) => Err(Error::InvalidConfig),
        }
    }

    /// Issues a soft reset by writing the reset command byte to the reset
    /// register. The device returns to its power-on defaults, so the cached
    /// configuration must be re-applied afterwards.
    pub fn reset(&mut self) -> (r: Result<(), Error<IFACE::Error>>)
        ensures
            final(self).interface.history() == old(self).interface.history().push(
                BusOp::Write { addr: REG_RESET, value: RESET_COMMAND },
            ),
            final(self).config == old(self).config,
            r is Err ==> r matches Err(Error::Interface(_)),
    {
        match self.interface.write_register(REG_RESET, RESET_COMMAND) {
            Ok(()) => Ok(()),
            Err(e) => Err(Error::Interface(e)),
        }
    }

    /// Reads the four identification registers and returns their raw bytes.
    pub fn device_id(&mut self) -> (r: Result<[u8; 4], Error<IFACE::Error>>)
        ensures
            final(self).config == old(self).config,
            r matches Ok(ids) ==> ({
                let h1 = final(self).interface.history();
                &&& h1 == old(self).interface.history().push(
                    BusOp::ReadBurst { addr: REG_DEVID_AD, values: ids@ },
                )
                &&& ids@.len() == 4
            }),
            r is Err ==> (r matches Err(Error::Interface(_)) && final(self).interface.history()
                == old(self).interface.history()),
    {
        let mut buf: Vec<u8> = vec![0u8, 0u8, 0u8, 0u8];
        match self.interface.read_many(REG_DEVID_AD, &mut buf) {
            Ok(()) => {
                let ids = [buf[0], buf[1], buf[2], buf[3]];
                proof {
                    assert(ids@ =~= buf@);
                }
                Ok(ids)
            },
            Err(e) => Err(Error::Interface(e)),
        }
    }

    /// Returns the decoded status register pair.
    pub fn read_status(&mut self) -> (r: Result<(Status, Status2), Error<IFACE::Error>>)
        ensures
            final(self).config == old(self).config,
            r matches Ok(st) ==> ({
                let h1 = final(self).interface.history();
                &&& h1.len() == old(self).interface.history().len() + 1
                &&& h1.drop_last() == old(self).interface.history()
                &&& (h1.last() matches BusOp::ReadBurst { addr, values } && addr == REG_STATUS
                    && values.len() == 2 && st.0 == Status::decode_spec(values[0]) && st.1
                    == Status2::decode_spec(values[1]))
            }),
            r is Err ==> (r matches Err(Error::Interface(_)) && final(self).interface.history()
                == old(self).interface.history()),
    {
        let mut buf: Vec<u8> = vec![0u8, 0u8];
        match self.interface.read_many(REG_STATUS, &mut buf) {
            Ok(()) => {
                proof {
                    let h1 = self.interface.history();
                    assert(h1.drop_last() =~= old(self).interface.history());
                }
                Ok((Status::decode(buf[0]), Status2::decode(buf[1])))
            },
            Err(e) => Err(Error::Interface(e)),
        }
    }

    /// Snapshot of the FIFO configuration registers: the watermark is
    /// assembled from the sample-count register and the control register's
    /// most significant watermark bit.
    pub fn fifo_settings(&mut self) -> (r: Result<FifoSettings, Error<IFACE::Error>>)
        ensures
            final(self).config == old(self).config,
            r matches Ok(fs) ==> ({
                let h1 = final(self).interface.history();
                &&& h1.len() == old(self).interface.history().len() + 1
                &&& h1.drop_last() == old(self).interface.history()
                &&& (h1.last() matches BusOp::ReadBurst { addr, values } && addr
                    == REG_FIFO_SAMPLES && values.len() == 2 && ({
                    let ctl = FifoControl::decode_spec(values[1]);
                    fs == (FifoSettings {
                        watermark: (((if ctl.samples_msb {
                            256u16
                        } else {
                            0u16
                        }) + values[0] as u16) as u16),
                        mode: ctl.mode,
                        format: ctl.format,
                    })
                }))
            }),
            r is Err ==> (r matches Err(Error::Interface(_)) && final(self).interface.history()
                == old(self).interface.history()),
    {
        let mut buf: Vec<u8> = vec![0u8, 0u8];
        match self.interface.read_many(REG_FIFO_SAMPLES, &mut buf) {
            Ok(()) => {
                proof {
                    let h1 = self.interface.history();
                    assert(h1.drop_last() =~= old(self).interface.history());
                }
                let ctl = FifoControl::decode(buf[1]);
                let watermark = (if ctl.samples_msb {
                    256u16
                } else {
                    0u16
                }) + buf[0] as u16;
                Ok(FifoSettings { watermark, mode: ctl.mode, format: ctl.format })
            },
            Err(e) => Err(Error::Interface(e)),
        }
    }

    /// Updates FIFO format, mode, or watermark through read-modify-write
    /// cycles of the control and sample-count registers, writing each byte
    /// only when it changes.
    #[verifier::rlimit(100)]
    #[verifier::spinoff_prover]
    pub fn configure_fifo(
        &mut self,
        format: Option<FifoFormat>,
        mode: Option<FifoMode>,
        watermark: Option<u16>,
    ) -> (r: Result<(), Error<IFACE::Error>>)
        ensures
            final(self).config == old(self).config,
            r is Err ==> r matches Err(Error::Interface(_)),
            r is Ok ==> ({
                let h0 = old(self).interface.history();
                let h1 = final(self).interface.history();
                let b0 = h1[h0.len() as int].op_byte();
                let c1 = fifo_control_update(FifoControl::decode_spec(b0), format, mode, watermark);
                let dc = rmw_ops(REG_FIFO_CTL, b0, c1.encode_spec());
                match watermark {
                    Some(w) => {
                        let s0 = h1[(h0.len() + dc.len()) as int].op_byte();
                        let ds = rmw_ops(REG_FIFO_SAMPLES, s0, (w & 0xFF) as u8);
                        h1 == h0 + dc + ds
                    },
                    None => h1 == h0 + dc,
                }
            }),
    {
        let ghost h0 = self.interface.history();
        let b0 = match self.interface.read_register(REG_FIFO_CTL) {
            Ok(b) => b,
            Err(e) => {
                return Err(Error::Interface(e));
            },
        };
        let c0 = FifoControl::decode(b0);
        let c1 = FifoControl {
            samples_msb: match watermark {
                Some(w) => w >= 256,
                None => c0.samples_msb,
            },
            mode: match mode {
                Some(m) => m,
                None => c0.mode,
            },
            format: match format {
                Some(f) => f,
                None => c0.format,
            },
            reserved: c0.reserved,
        };
        let b1 = c1.encode();
        match write_if_changed(&mut self.interface, REG_FIFO_CTL, b0, b1) {
            Ok(()) => {},
            Err(e) => {
                return Err(Error::Interface(e));
            },
        }
        let ghost dc = rmw_ops(REG_FIFO_CTL, b0, c1.encode_spec());
        proof {
            assert(self.interface.history() =~= h0 + dc);
        }
        match watermark {
            Some(w) => {
                let ghost h1 = self.interface.history();
                let s0 = match self.interface.read_register(REG_FIFO_SAMPLES) {
                    Ok(b) => b,
                    Err(e) => {
                        return Err(Error::Interface(e));
                    },
                };
                let low = (w & 0xFF) as u8;
                match write_if_changed(&mut self.interface, REG_FIFO_SAMPLES, s0, low) {
                    Ok(()) => {},
                    Err(e) => {
                        return Err(Error::Interface(e));
                    },
                }
                proof {
                    let ds = rmw_ops(REG_FIFO_SAMPLES, s0, low);
                    assert(self.interface.history() =~= (h0 + dc) + ds);
                    assert(self.interface.history()[h0.len() as int] == dc[0]);
                    assert(self.interface.history()[(h0.len() + dc.len()) as int] == ds[0]);
                }
                Ok(())
            },
            None => {
                proof {
                    assert(self.interface.history()[h0.len() as int] == dc[0]);
                }
                Ok(())
            },
        }
    }

    /// Reads a raw acceleration triplet: a six-byte burst over the three
    /// axis register pairs, each decoded as a 12-bit left-justified
    /// two's-complement value.
    pub fn read_xyz_raw(&mut self) -> (r: Result<[i16; 3], Error<IFACE::Error>>)
        ensures
            final(self).config == old(self).config,
            r matches Ok(v) ==> ({
                let h1 = final(self).interface.history();
                &&& h1.len() == old(self).interface.history().len() + 1
                &&& h1.drop_last() == old(self).interface.history()
                &&& (h1.last() matches BusOp::ReadBurst { addr, values } && addr == REG_XDATA_H
                    && values.len() == 6 && v@ == seq![
                    (crate::self_test::axis_val(values[0], values[1])) as i16,
                    (crate::self_test::axis_val(values[2], values[3])) as i16,
                    (crate::self_test::axis_val(values[4], values[5])) as i16,
                ])
            }),
            r matches Ok(v) ==> forall|i: int| 0 <= i < 3 ==> -2048 <= #[trigger] v@[i] < 2048,
            r is Err ==> (r matches Err(Error::Interface(_)) && final(self).interface.history()
                == old(self).interface.history()),
    {
        let mut buf: Vec<u8> = vec![0u8, 0u8, 0u8, 0u8, 0u8, 0u8];
        match self.interface.read_many(REG_XDATA_H, &mut buf) {
            Ok(()) => {
                proof {
                    let h1 = self.interface.history();
                    assert(h1.drop_last() =~= old(self).interface.history());
                }
                let x = crate::self_test::decode_axis(buf[0], buf[1]);
                let y = crate::self_test::decode_axis(buf[2], buf[3]);
                let z = crate::self_test::decode_axis(buf[4], buf[5]);
                let v = [x, y, z];
                proof {
                    assert(v@ =~= seq![x, y, z]);
                    assert(forall|i: int| 0 <= i < 3 ==> -2048 <= #[trigger] v@[i] < 2048);
                }
                Ok(v)
            },
            Err(e) => Err(Error::Interface(e)),
        }
    }

    /// Returns acceleration scaled in milli-g, at the device's fixed scale
    /// factor of 100 milli-g per LSB.
    pub fn read_xyz_mg(&mut self) -> (r: Result<[i32; 3], Error<IFACE::Error>>)
        ensures
            final(self).config == old(self).config,
            r matches Ok(v) ==> ({
                let h1 = final(self).interface.history();
                &&& h1.len() == old(self).interface.history().len() + 1
                &&& h1.drop_last() == old(self).interface.history()
                &&& (h1.last() matches BusOp::ReadBurst { addr, values } && addr == REG_XDATA_H
                    && values.len() == 6 && v@ == seq![
                    (crate::self_test::axis_val(values[0], values[1]) * 100) as i32,
                    (crate::self_test::axis_val(values[2], values[3]) * 100) as i32,
                    (crate::self_test::axis_val(values[4], values[5]) * 100) as i32,
                ])
            }),
            r is Err ==> r matches Err(Error::Interface(_)),
    {
        match self.read_xyz_raw() {
            Ok(raw) => {
                let x100 = raw[0] as i32 * 100;
                let y100 = raw[1] as i32 * 100;
                let z100 = raw[2] as i32 * 100;
                let v = [x100, y100, z100];
                proof {
                    assert(v@ =~= seq![x100, y100, z100]);
                }
                Ok(v)
            },
            Err(e) => Err(e),
        }
    }

    /// Returns the number of FIFO samples currently buffered, assembled
    /// from the two entry-count registers.
    pub fn read_fifo_level(&mut self) -> (r: Result<u16, Error<IFACE::Error>>)
        ensures
            final(self).config == old(self).config,
            r matches Ok(n) ==> n < 1024,
            r matches Ok(n) ==> ({
                let h1 = final(self).interface.history();
                &&& h1.len() == old(self).interface.history().len() + 1
                &&& h1.drop_last() == old(self).interface.history()
                &&& (h1.last() matches BusOp::ReadBurst { addr, values } && addr
                    == REG_FIFO_ENTRIES2 && values.len() == 2 && n == (values[0] & 0x03) * 256
                    + values[1])
            }),
            r is Err ==> (r matches Err(Error::Interface(_)) && final(self).interface.history()
                == old(self).interface.history()),
    {
        let mut buf: Vec<u8> = vec![0u8, 0u8];
        match self.interface.read_many(REG_FIFO_ENTRIES2, &mut buf) {
            Ok(()) => {
                proof {
                    let h1 = self.interface.history();
                    assert(h1.drop_last() =~= old(self).interface.history());
                }
                let b0v = buf[0];
                let upper = FifoEntriesUpper::decode(b0v);
                let n = fifo_entry_count(upper, buf[1]);
                proof {
                    assert((b0v & 0x03) & 0x03 == b0v & 0x03) by (bit_vector);
                }
                Ok(n)
            },
            Err(e) => Err(Error::Interface(e)),
        }
    }

    /// Reads raw FIFO bytes into the provided buffer.
    pub fn read_fifo_raw(&mut self, buf: &mut Vec<u8>) -> (r: Result<usize, Error<IFACE::Error>>)
        ensures
            final(self).config == old(self).config,
            final(buf)@.len() == old(buf)@.len(),
            r matches Ok(n) ==> n == old(buf)@.len(),
            r is Err ==> r matches Err(Error::Interface(_)),
    {
        match crate::fifo::read_fifo_raw(&mut self.interface, buf) {
            Ok(n) => Ok(n),
            Err(e) => Err(Error::Interface(e)),
        }
    }

    /// Decodes FIFO samples into the caller-provided vector.
    pub fn read_fifo_samples(&mut self, samples: &mut Vec<Sample>) -> (r: Result<
        usize,
        Error<IFACE::Error>,
    >)
        ensures
            final(self).config == old(self).config,
            final(samples)@.len() == old(samples)@.len(),
            r matches Ok(n) ==> n == old(samples)@.len(),
            r is Err ==> r matches Err(Error::Interface(_)),
    {
        match crate::fifo::read_fifo_samples(&mut self.interface, samples) {
            Ok(n) => Ok(n),
            Err(e) => Err(Error::Interface(e)),
        }
    }

    /// Drains the FIFO without returning its contents: reads the entry
    /// count, then reads that many two-byte entries in one burst. Only
    /// reads are issued.
    pub fn flush_fifo(&mut self) -> (r: Result<(), Error<IFACE::Error>>)
        ensures
            final(self).config == old(self).config,
            writes_in(final(self).interface.history()) == writes_in(old(self).interface.history()),
            r is Err ==> r matches Err(Error::Interface(_)),
            r is Ok ==> ({
                let h0 = old(self).interface.history();
                let h1 = final(self).interface.history();
                &&& h0.len() < h1.len()
                &&& h1.take(h0.len() as int) == h0
                &&& (h1[h0.len() as int] matches BusOp::ReadBurst { addr, values } && addr
                    == REG_FIFO_ENTRIES2 && values.len() == 2 && ({
                    let level = (values[0] & 0x03) * 256 + values[1];
                    if level == 0 {
                        h1.len() == h0.len() + 1
                    } else {
                        h1.len() == h0.len() + 2 && (h1[(h0.len() + 1) as int] matches BusOp::ReadBurst {
                            addr: data_addr,
                            values: data_values,
                        } && data_addr == REG_FIFO_DATA && data_values.len() == 2 * level)
                    }
                }))
            }),
    {
        let ghost h0 = self.interface.history();
        let level = match self.read_fifo_level() {
            Ok(n) => n,
            Err(e) => {
                return Err(e);
            },
        };
        proof {
            let h1 = self.interface.history();
            assert(h1 =~= h0.push(h1.last()));
            lemma_writes_in_push(h0, h1.last());
            assert(h1.take(h0.len() as int) =~= h0);
            assert(h1[h0.len() as int] == h1.last());
        }
        if level == 0 {
            return Ok(());
        }
        let ghost h1 = self.interface.history();
        let count = (level as usize) * 2;
        let mut buf: Vec<u8> = Vec::new();
        let mut i: usize = 0;
        while i < count
            invariant
                i <= count,
                buf@.len() == i,
            decreases count - i,
        {
            buf.push(0);
            i = i + 1;
        }
        match self.interface.read_many(REG_FIFO_DATA, &mut buf) {
            Ok(()) => {
                proof {
                    let h2 = self.interface.history();
                    assert(h2 =~= h1.push(h2.last()));
                    lemma_writes_in_push(h1, h2.last());
                    assert(h2.take(h0.len() as int) =~= h0);
                    assert(h2[h0.len() as int] == h1[h0.len() as int]);
                    assert(h2[(h0.len() + 1) as int] == h2.last());
                }
                Ok(())
            },
            Err(e) => Err(Error::Interface(e)),
        }
    }

    /// Executes the datasheet self-test routine; see
    /// [`run_self_test`](crate::self_test::run_self_test).
    pub fn run_self_test<D: crate::interface::DelayProvider>(&mut self, delay: &mut D) -> (r:
        Result<SelfTestReport, Error<IFACE::Error>>)
        ensures
            ({
                let h0 = old(self).interface.history();
                let h1 = final(self).interface.history();
                &&& resets_in(h1) == resets_in(h0) + 2
                &&& h0.len() < h1.len()
                &&& h1.take(h0.len() as int) == h0
                &&& h1[h0.len() as int] == crate::self_test::reset_op()
                &&& h1.last() == crate::self_test::reset_op()
            }),
            final(self).config.timing_view() == old(self).config.timing_view(),
            final(self).config.measure_view() == old(self).config.measure_view(),
            r is Err ==> r matches Err(Error::Interface(_)),
            r matches Ok(rep) ==> ({
                let h0 = old(self).interface.history();
                let h1 = final(self).interface.history();
                let zs = crate::self_test::z_reads(h1).skip(
                    crate::self_test::z_reads(h0).len() as int,
                );
                &&& crate::self_test::z_reads(h1).take(crate::self_test::z_reads(h0).len() as int)
                    == crate::self_test::z_reads(h0)
                &&& rep.samples_per_window == crate::self_test::window_len(zs)
                &&& rep.baseline_avg == crate::self_test::window_avg(
                    crate::self_test::baseline_window(zs),
                )
                &&& rep.stimulated_avg == crate::self_test::window_avg(
                    crate::self_test::trailing_window(zs),
                )
                &&& rep.delta == rep.stimulated_avg - rep.baseline_avg
                &&& rep.passed == (!rep.timed_out && rep.user_st && (rep.delta
                    >= crate::self_test::SELF_TEST_THRESHOLD_LSB || rep.delta
                    <= -crate::self_test::SELF_TEST_THRESHOLD_LSB))
                &&& (!rep.timed_out ==> rep.st_done)
                &&& (rep.timed_out ==> zs.len() == crate::self_test::SELF_TEST_TIMEOUT_US
                    / crate::self_test::SAMPLE_INTERVAL_US)
            }),
            r matches Ok(rep) ==> crate::self_test::self_test_shape(
                old(self).interface.history(),
                final(self).interface.history(),
                rep,
            ),
    {
        crate::self_test::run_self_test(self, delay)
    }
}

/// A FIFO control view with each requested field replaced; a requested
/// watermark supplies the most significant watermark bit.
pub open spec fn fifo_control_update(
    c: FifoControl,
    format: Option<FifoFormat>,
    mode: Option<FifoMode>,
    watermark: Option<u16>,
) -> FifoControl {
    FifoControl {
        samples_msb: match watermark {
            Some(w) => w >= 256,
            None => c.samples_msb,
        },
        mode: match mode {
            Some(m) => m,
            None => c.mode,
        },
        format: match format {
            Some(f) => f,
            None => c.format,
        },
        reserved: c.reserved,
    }
}

/// A push extends the write count by one exactly when the operation writes.
pub proof fn lemma_writes_in_push(h: Seq<BusOp>, op: BusOp)
    ensures
        writes_in(h.push(op)) == writes_in(h) + (if op.is_write_op() {
            1nat
        } else {
            0nat
        }),
{
    assert(h.push(op).drop_last() =~= h);
    assert(h.push(op).last() == op);
}

impl<SPI: embedded_hal::spi::SpiDevice> Adxl372<SpiInterface<SPI>> {
    /// Convenience constructor for SPI transports.
    pub fn new_spi(spi: SPI, config: Config) -> (r: Self)
        ensures
            r.interface.spec_device() == spi,
            r.interface.ops_log() == Seq::<BusOp>::empty(),
            r.config == config,
    {
        Adxl372::new(SpiInterface::new(spi), config)
    }

    /// Releases the driver, returning the SPI device and configuration.
    pub fn release_spi(self) -> (r: (SPI, Config))
        ensures
            r.0 == self.interface.spec_device(),
            r.1 == self.config,
    {
        let (iface, config) = self.release();
        (iface.release(), config)
    }
}

} // verus!
