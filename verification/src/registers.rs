//! Register map and byte codec for the ADXL372 accelerometer.
//!
//! Each control register has a typed view struct whose fields name its bit
//! ranges. `decode` turns a raw byte into a view and `encode` turns a view
//! back into a byte; both are total. Reserved bits are captured in the view
//! when decoding and written back when encoding, so every byte whose
//! enumerated fields carry defined patterns round-trips exactly
//! (see the `lemma_*_round_trip` proofs).

use vstd::prelude::*;

use crate::params::Bandwidth;
use crate::params::ExtClk;
use crate::params::ExtSync;
use crate::params::FifoFormat;
use crate::params::FifoMode;
use crate::params::InstantOnThreshold;
use crate::params::LinkLoopMode;
use crate::params::LowNoise;
use crate::params::OutputDataRate;
use crate::params::PowerMode;
use crate::params::SettleFilter;
use crate::params::WakeUpRate;

verus! {

/// Register address of `DEVID_AD`.
pub const REG_DEVID_AD: u8 = 0x00;

/// Register address of `DEVID_MST`.
pub const REG_DEVID_MST: u8 = 0x01;

/// Register address of `PARTID`.
pub const REG_PARTID: u8 = 0x02;

/// Register address of `REVID`.
pub const REG_REVID: u8 = 0x03;

/// Register address of `STATUS`.
pub const REG_STATUS: u8 = 0x04;

/// Register address of `STATUS2`.
pub const REG_STATUS2: u8 = 0x05;

/// Register address of `FIFO_ENTRIES2`.
pub const REG_FIFO_ENTRIES2: u8 = 0x06;

/// Register address of `FIFO_ENTRIES`.
pub const REG_FIFO_ENTRIES: u8 = 0x07;

/// Register address of `XDATA_H`.
pub const REG_XDATA_H: u8 = 0x08;

/// Register address of `XDATA_L`.
pub const REG_XDATA_L: u8 = 0x09;

/// Register address of `YDATA_H`.
pub const REG_YDATA_H: u8 = 0x0A;

/// Register address of `YDATA_L`.
pub const REG_YDATA_L: u8 = 0x0B;

/// Register address of `ZDATA_H`.
pub const REG_ZDATA_H: u8 = 0x0C;

/// Register address of `ZDATA_L`.
pub const REG_ZDATA_L: u8 = 0x0D;

/// Register address of `TEMP_DATA`.
pub const REG_TEMP_DATA: u8 = 0x0E;

/// Register address of `FIFO_DATA`.
pub const REG_FIFO_DATA: u8 = 0x42;

/// Register address of `FIFO_SAMPLES`.
pub const REG_FIFO_SAMPLES: u8 = 0x39;

/// Register address of `FIFO_CTL`.
pub const REG_FIFO_CTL: u8 = 0x3A;

/// Register address of `HPF`.
pub const REG_HPF: u8 = 0x3C;

/// Register address of `TIMING`.
pub const REG_TIMING: u8 = 0x3D;

/// Register address of `MEASURE`.
pub const REG_MEASURE: u8 = 0x3E;

/// Register address of `POWER_CTL`.
pub const REG_POWER_CTL: u8 = 0x3F;

/// Register address of `SELF_TEST`.
pub const REG_SELF_TEST: u8 = 0x40;

/// Register address of `RESET`.
pub const REG_RESET: u8 = 0x41;

/// Soft reset command value written to the `RESET` register.
pub const RESET_COMMAND: u8 = 0x52;

/// Access permissions encoded for each register.
#[derive(Debug, Clone, Copy, PartialEq, Eq, Structural)]
pub enum RegisterAccess {
    /// Read-only register.
    ReadOnly,
    /// Write-only register.
    WriteOnly,
    /// Read/write register.
    ReadWrite,
}

/// Minimal metadata exposed by every register value type.
///
/// Every register handled here is a single byte wide, so the raw payload is
/// always `u8`.
pub trait Register {
    /// Register address as documented in the datasheet.
    spec fn spec_address() -> u8;

    /// Access permission classification.
    spec fn spec_access() -> RegisterAccess;

    /// Reset/default value defined by the datasheet, if any.
    spec fn spec_reset_value() -> Option<u8>;

    /// Register address as documented in the datasheet.
    fn address() -> (r: u8)
        ensures
            r == Self::spec_address(),
    ;

    /// Access permission classification.
    fn access() -> (r: RegisterAccess)
        ensures
            r == Self::spec_access(),
    ;

    /// Reset/default value defined by the datasheet, if any.
    fn reset_value() -> (r: Option<u8>)
        ensures
            r == Self::spec_reset_value(),
    ;
}

/// Typed view of the `STATUS` register (address `0x04`).
///
/// All eight bits are captured, so decoding and encoding are exact inverses
/// for every byte.
#[derive(Debug, Clone, Copy, PartialEq, Eq, Structural)]
pub struct Status {
    /// Data ready flag (bit 0).
    pub data_ready: bool,
    /// FIFO ready flag (bit 1).
    pub fifo_ready: bool,
    /// FIFO full flag (bit 2).
    pub fifo_full: bool,
    /// FIFO overrun flag (bit 3).
    pub fifo_overrun: bool,
    /// Reserved bit (bit 4), preserved across decode/encode.
    pub reserved: bool,
    /// Internal non-volatile memory busy indicator (bit 5).
    pub user_nvm_busy: bool,
    /// Device is awake (bit 6).
    pub awake: bool,
    /// User register checksum error detected (bit 7).
    pub err_user_regs: bool,
}

/// The value of one bit of a byte, as a boolean.
pub open spec fn bit_spec(b: u8, i: u8) -> bool {
    (b >> i) & 1 == 1
}

/// The value of one bit of a byte, as a boolean.
#[verifier::when_used_as_spec(bit_spec)]
pub fn bit(b: u8, i: u8) -> (r: bool)
    requires
        i < 8,
    ensures
        r == bit_spec(b, i),
{
    (b >> i) & 1 == 1
}

/// A boolean placed at one bit position of a byte.
pub open spec fn bit_byte_spec(v: bool, i: u8) -> u8 {
    if v {
        1u8 << i
    } else {
        0
    }
}

/// A boolean placed at one bit position of a byte.
#[verifier::when_used_as_spec(bit_byte_spec)]
pub fn bit_byte(v: bool, i: u8) -> (r: u8)
    requires
        i < 8,
    ensures
        r == bit_byte_spec(v, i),
{
    if v {
        1u8 << i
    } else {
        0
    }
}

impl Status {
    /// Decoding of a raw `STATUS` byte.
    pub open spec fn decode_spec(b: u8) -> Status {
        Status {
            data_ready: bit_spec(b, 0),
            fifo_ready: bit_spec(b, 1),
            fifo_full: bit_spec(b, 2),
            fifo_overrun: bit_spec(b, 3),
            reserved: bit_spec(b, 4),
            user_nvm_busy: bit_spec(b, 5),
            awake: bit_spec(b, 6),
            err_user_regs: bit_spec(b, 7),
        }
    }

    /// Decodes a raw `STATUS` byte.
    #[verifier::when_used_as_spec(decode_spec)]
    pub fn decode(b: u8) -> (r: Status)
        ensures
            r == Status::decode_spec(b),
    {
        Status {
            data_ready: bit(b, 0),
            fifo_ready: bit(b, 1),
            fifo_full: bit(b, 2),
            fifo_overrun: bit(b, 3),
            reserved: bit(b, 4),
            user_nvm_busy: bit(b, 5),
            awake: bit(b, 6),
            err_user_regs: bit(b, 7),
        }
    }

    /// Encoding of this view as a raw byte.
    pub open spec fn encode_spec(self) -> u8 {
        bit_byte_spec(self.data_ready, 0) | bit_byte_spec(self.fifo_ready, 1) | bit_byte_spec(
            self.fifo_full,
            2,
        ) | bit_byte_spec(self.fifo_overrun, 3) | bit_byte_spec(self.reserved, 4) | bit_byte_spec(
            self.user_nvm_busy,
            5,
        ) | bit_byte_spec(self.awake, 6) | bit_byte_spec(self.err_user_regs, 7)
    }

    /// Encodes this view as a raw byte.
    #[verifier::when_used_as_spec(encode_spec)]
    pub fn encode(self) -> (r: u8)
        ensures
            r == self.encode_spec(),
    {
        bit_byte(self.data_ready, 0) | bit_byte(self.fifo_ready, 1) | bit_byte(self.fifo_full, 2)
            | bit_byte(self.fifo_overrun, 3) | bit_byte(self.reserved, 4) | bit_byte(
            self.user_nvm_busy,
            5,
        ) | bit_byte(self.awake, 6) | bit_byte(self.err_user_regs, 7)
    }

    /// Round-trip fidelity: every `STATUS` byte decodes and re-encodes to
    /// itself.
    pub proof fn lemma_round_trip(b: u8)
        ensures
            Status::decode_spec(b).encode_spec() == b,
    {
        assert((if (b >> 0) & 1 == 1 {
            1u8 << 0
        } else {
            0
        }) | (if (b >> 1) & 1 == 1 {
            1u8 << 1
        } else {
            0
        }) | (if (b >> 2) & 1 == 1 {
            1u8 << 2
        } else {
            0
        }) | (if (b >> 3) & 1 == 1 {
            1u8 << 3
        } else {
            0
        }) | (if (b >> 4) & 1 == 1 {
            1u8 << 4
        } else {
            0
        }) | (if (b >> 5) & 1 == 1 {
            1u8 << 5
        } else {
            0
        }) | (if (b >> 6) & 1 == 1 {
            1u8 << 6
        } else {
            0
        }) | (if (b >> 7) & 1 == 1 {
            1u8 << 7
        } else {
            0
        }) == b) by (bit_vector);
    }
}

/// Typed view of the `STATUS2` register (address `0x05`).
#[derive(Debug, Clone, Copy, PartialEq, Eq, Structural)]
pub struct Status2 {
    /// Reserved bits 3:0, preserved across decode/encode.
    pub reserved_low: u8,
    /// Inactivity event detected (bit 4).
    pub inactivity: bool,
    /// Activity event detected (bit 5).
    pub activity: bool,
    /// Activity2 event detected (bit 6).
    pub activity2: bool,
    /// Reserved bit 7, preserved across decode/encode.
    pub reserved_high: bool,
}

impl Status2 {
    /// Reserved bits stay inside their ranges.
    pub open spec fn wf(self) -> bool {
        self.reserved_low < 16
    }

    /// Decoding of a raw `STATUS2` byte.
    pub open spec fn decode_spec(b: u8) -> Status2 {
        Status2 {
            reserved_low: b & 0x0F,
            inactivity: bit_spec(b, 4),
            activity: bit_spec(b, 5),
            activity2: bit_spec(b, 6),
            reserved_high: bit_spec(b, 7),
        }
    }

    /// Decodes a raw `STATUS2` byte.
    #[verifier::when_used_as_spec(decode_spec)]
    pub fn decode(b: u8) -> (r: Status2)
        ensures
            r == Status2::decode_spec(b),
    {
        Status2 {
            reserved_low: b & 0x0F,
            inactivity: bit(b, 4),
            activity: bit(b, 5),
            activity2: bit(b, 6),
            reserved_high: bit(b, 7),
        }
    }

    /// Encoding of this view as a raw byte; reserved bits are masked to
    /// their ranges.
    pub open spec fn encode_spec(self) -> u8 {
        (self.reserved_low & 0x0F) | bit_byte_spec(self.inactivity, 4) | bit_byte_spec(
            self.activity,
            5,
        ) | bit_byte_spec(self.activity2, 6) | bit_byte_spec(self.reserved_high, 7)
    }

    /// Encodes this view as a raw byte.
    #[verifier::when_used_as_spec(encode_spec)]
    pub fn encode(self) -> (r: u8)
        ensures
            r == self.encode_spec(),
    {
        (self.reserved_low & 0x0F) | bit_byte(self.inactivity, 4) | bit_byte(self.activity, 5)
            | bit_byte(self.activity2, 6) | bit_byte(self.reserved_high, 7)
    }

    /// Round-trip fidelity: every `STATUS2` byte decodes and re-encodes to
    /// itself.
    pub proof fn lemma_round_trip(b: u8)
        ensures
            Status2::decode_spec(b).encode_spec() == b,
    {
        assert(((b & 0x0F) & 0x0F) | (if (b >> 4) & 1 == 1 {
            1u8 << 4
        } else {
            0
        }) | (if (b >> 5) & 1 == 1 {
            1u8 << 5
        } else {
            0
        }) | (if (b >> 6) & 1 == 1 {
            1u8 << 6
        } else {
            0
        }) | (if (b >> 7) & 1 == 1 {
            1u8 << 7
        } else {
            0
        }) == b) by (bit_vector);
    }
}

/// Typed view of the `TIMING` register (address `0x3D`).
#[derive(Debug, Clone, Copy, PartialEq, Eq, Structural)]
pub struct Timing {
    /// External sync enable bit (bit 0).
    pub ext_sync: ExtSync,
    /// External clock enable bit (bit 1).
    pub ext_clk: ExtClk,
    /// Wake-up rate selection (bits 4:2).
    pub wake_up_rate: WakeUpRate,
    /// Output data rate selection (bits 7:5).
    pub odr: OutputDataRate,
}

impl Timing {
    /// Whether a raw byte carries only defined field patterns.
    pub open spec fn representable(b: u8) -> bool {
        OutputDataRate::bits_valid((b >> 5) & 0x07)
    }

    /// Decoding of a raw `TIMING` byte; undefined ODR patterns decode to the
    /// highest selection.
    pub open spec fn decode_spec(b: u8) -> Timing {
        Timing {
            ext_sync: ExtSync::from_bits_spec(b & 0x01),
            ext_clk: ExtClk::from_bits_spec((b >> 1) & 0x01),
            wake_up_rate: WakeUpRate::from_bits_spec((b >> 2) & 0x07),
            odr: OutputDataRate::from_bits_spec((b >> 5) & 0x07),
        }
    }

    /// Decodes a raw `TIMING` byte.
    #[verifier::when_used_as_spec(decode_spec)]
    pub fn decode(b: u8) -> (r: Timing)
        ensures
            r == Timing::decode_spec(b),
    {
        Timing {
            ext_sync: ExtSync::from_bits(b & 0x01),
            ext_clk: ExtClk::from_bits((b >> 1) & 0x01),
            wake_up_rate: WakeUpRate::from_bits((b >> 2) & 0x07),
            odr: OutputDataRate::from_bits((b >> 5) & 0x07),
        }
    }

    /// Encoding of this view as a raw byte.
    pub open spec fn encode_spec(self) -> u8 {
        (self.odr.bits_spec() << 5) | (self.wake_up_rate.bits_spec() << 2) | (
        self.ext_clk.bits_spec() << 1) | self.ext_sync.bits_spec()
    }

    /// Encodes this view as a raw byte.
    #[verifier::when_used_as_spec(encode_spec)]
    pub fn encode(self) -> (r: u8)
        ensures
            r == self.encode_spec(),
    {
        (self.odr.bits() << 5) | (self.wake_up_rate.bits() << 2) | (self.ext_clk.bits() << 1)
            | self.ext_sync.bits()
    }

    /// Round-trip fidelity: every representable `TIMING` byte decodes and
    /// re-encodes to itself.
    pub proof fn lemma_round_trip(b: u8)
        requires
            Timing::representable(b),
        ensures
            Timing::decode_spec(b).encode_spec() == b,
    {
        reveal(OutputDataRate::bits_spec);
        reveal(OutputDataRate::from_bits_spec);
        reveal(WakeUpRate::bits_spec);
        reveal(WakeUpRate::from_bits_spec);
        reveal(ExtClk::bits_spec);
        reveal(ExtClk::from_bits_spec);
        reveal(ExtSync::bits_spec);
        reveal(ExtSync::from_bits_spec);
        assert((b >> 5) & 0x07 < 8 && (b >> 2) & 0x07 < 8 && (b >> 1) & 0x01 < 2 && b & 0x01 < 2)
            by (bit_vector);
        assert((((b >> 5) & 0x07) << 5) | (((b >> 2) & 0x07) << 2) | (((b >> 1) & 0x01) << 1) | (b
            & 0x01) == b) by (bit_vector);
    }

    /// Decoding inverts encoding: every view comes back unchanged from its
    /// own byte.
    pub proof fn lemma_encode_decode(v: Timing)
        ensures
            Timing::decode_spec(v.encode_spec()) == v,
    {
        reveal(OutputDataRate::bits_spec);
        reveal(OutputDataRate::from_bits_spec);
        reveal(WakeUpRate::bits_spec);
        reveal(WakeUpRate::from_bits_spec);
        reveal(ExtClk::bits_spec);
        reveal(ExtClk::from_bits_spec);
        reveal(ExtSync::bits_spec);
        reveal(ExtSync::from_bits_spec);
        let x5 = v.odr.bits_spec();
        let x2 = v.wake_up_rate.bits_spec();
        let x1 = v.ext_clk.bits_spec();
        let x0 = v.ext_sync.bits_spec();
        assert((((x5 << 5) | (x2 << 2) | (x1 << 1) | x0) >> 5) & 0x07 == x5 && (((x5 << 5) | (x2
            << 2) | (x1 << 1) | x0) >> 2) & 0x07 == x2 && (((x5 << 5) | (x2 << 2) | (x1 << 1) | x0)
            >> 1) & 0x01 == x1 && ((x5 << 5) | (x2 << 2) | (x1 << 1) | x0) & 0x01 == x0)
            by (bit_vector)
            requires
                x5 < 8,
                x2 < 8,
                x1 < 2,
                x0 < 2,
        ;
    }
}

/// Typed view of the `MEASURE` register (address `0x3E`).
#[derive(Debug, Clone, Copy, PartialEq, Eq, Structural)]
pub struct Measure {
    /// Low-pass bandwidth selection (bits 2:0).
    pub bandwidth: Bandwidth,
    /// Low-noise operating mode selection (bit 3).
    pub low_noise: LowNoise,
    /// Link/loop control selection (bits 5:4).
    pub link_loop_mode: LinkLoopMode,
    /// Autosleep enable flag (bit 6).
    pub autosleep: bool,
    /// USER_OR / disable output selection (bit 7).
    pub user_or_disable: bool,
}

impl Measure {
    /// Whether a raw byte carries only defined field patterns.
    pub open spec fn representable(b: u8) -> bool {
        Bandwidth::bits_valid(b & 0x07) && LinkLoopMode::bits_valid((b >> 4) & 0x03)
    }

    /// Decoding of a raw `MEASURE` byte; undefined patterns decode to the
    /// highest selection of their field.
    pub open spec fn decode_spec(b: u8) -> Measure {
        Measure {
            bandwidth: Bandwidth::from_bits_spec(b & 0x07),
            low_noise: LowNoise::from_bits_spec((b >> 3) & 0x01),
            link_loop_mode: LinkLoopMode::from_bits_spec((b >> 4) & 0x03),
            autosleep: bit_spec(b, 6),
            user_or_disable: bit_spec(b, 7),
        }
    }

    /// Decodes a raw `MEASURE` byte.
    #[verifier::when_used_as_spec(decode_spec)]
    pub fn decode(b: u8) -> (r: Measure)
        ensures
            r == Measure::decode_spec(b),
    {
        Measure {
            bandwidth: Bandwidth::from_bits(b & 0x07),
            low_noise: LowNoise::from_bits((b >> 3) & 0x01),
            link_loop_mode: LinkLoopMode::from_bits((b >> 4) & 0x03),
            autosleep: bit(b, 6),
            user_or_disable: bit(b, 7),
        }
    }

    /// Encoding of this view as a raw byte.
    pub open spec fn encode_spec(self) -> u8 {
        self.bandwidth.bits_spec() | (self.low_noise.bits_spec() << 3) | (
        self.link_loop_mode.bits_spec() << 4) | bit_byte_spec(self.autosleep, 6) | bit_byte_spec(
            self.user_or_disable,
            7,
        )
    }

    /// Encodes this view as a raw byte.
    #[verifier::when_used_as_spec(encode_spec)]
    pub fn encode(self) -> (r: u8)
        ensures
            r == self.encode_spec(),
    {
        self.bandwidth.bits() | (self.low_noise.bits() << 3) | (self.link_loop_mode.bits() << 4)
            | bit_byte(self.autosleep, 6) | bit_byte(self.user_or_disable, 7)
    }

    /// Round-trip fidelity: every representable `MEASURE` byte decodes and
    /// re-encodes to itself.
    pub proof fn lemma_round_trip(b: u8)
        requires
            Measure::representable(b),
        ensures
            Measure::decode_spec(b).encode_spec() == b,
    {
        reveal(Bandwidth::bits_spec);
        reveal(Bandwidth::from_bits_spec);
        reveal(LowNoise::bits_spec);
        reveal(LowNoise::from_bits_spec);
        reveal(LinkLoopMode::bits_spec);
        reveal(LinkLoopMode::from_bits_spec);
        assert(b & 0x07 < 8 && (b >> 3) & 0x01 < 2 && (b >> 4) & 0x03 < 4) by (bit_vector);
        assert((b & 0x07) | (((b >> 3) & 0x01) << 3) | (((b >> 4) & 0x03) << 4) | (if (b >> 6) & 1
            == 1 {
            1u8 << 6
        } else {
            0
        }) | (if (b >> 7) & 1 == 1 {
            1u8 << 7
        } else {
            0
        }) == b) by (bit_vector);
    }

    /// Decoding inverts encoding: every view comes back unchanged from its
    /// own byte.
    pub proof fn lemma_encode_decode(v: Measure)
        ensures
            Measure::decode_spec(v.encode_spec()) == v,
    {
        reveal(Bandwidth::bits_spec);
        reveal(Bandwidth::from_bits_spec);
        reveal(LowNoise::bits_spec);
        reveal(LowNoise::from_bits_spec);
        reveal(LinkLoopMode::bits_spec);
        reveal(LinkLoopMode::from_bits_spec);
        let x0 = v.bandwidth.bits_spec();
        let x3 = v.low_noise.bits_spec();
        let x4 = v.link_loop_mode.bits_spec();
        let b6 = v.autosleep;
        let b7 = v.user_or_disable;
        let e = x0 | (x3 << 3) | (x4 << 4) | (if b6 {
            1u8 << 6
        } else {
            0
        }) | (if b7 {
            1u8 << 7
        } else {
            0
        });
        assert(e & 0x07 == x0 && (e >> 3) & 0x01 == x3 && (e >> 4) & 0x03 == x4 && ((e >> 6) & 1
            == 1) == b6 && ((e >> 7) & 1 == 1) == b7) by (bit_vector)
            requires
                x0 < 8,
                x3 < 2,
                x4 < 4,
                e == x0 | (x3 << 3) | (x4 << 4) | (if b6 {
                    1u8 << 6
                } else {
                    0
                }) | (if b7 {
                    1u8 << 7
                } else {
                    0
                }),
        ;
    }
}

/// Typed view of the `POWER_CTL` register (address `0x3F`).
#[derive(Debug, Clone, Copy, PartialEq, Eq, Structural)]
pub struct PowerControl {
    /// Power mode selection (bits 1:0).
    pub mode: PowerMode,
    /// High-pass filter disable flag (bit 2).
    pub hpf_disable: bool,
    /// Low-pass filter disable flag (bit 3).
    pub lpf_disable: bool,
    /// Filter settling behaviour (bit 4).
    pub filter_settle: SettleFilter,
    /// Instant-on threshold selection (bit 5).
    pub instant_on_threshold: InstantOnThreshold,
    /// Reserved bit (bit 6), preserved across decode/encode.
    pub reserved: bool,
    /// I2C high-speed enable flag (bit 7).
    pub i2c_high_speed_enable: bool,
}

impl PowerControl {
    /// Decoding of a raw `POWER_CTL` byte; every pattern is defined.
    #[verifier::opaque]
    pub open spec fn decode_spec(b: u8) -> PowerControl {
        PowerControl {
            mode: PowerMode::from_bits_spec(b & 0x03),
            hpf_disable: bit_spec(b, 2),
            lpf_disable: bit_spec(b, 3),
            filter_settle: SettleFilter::from_bits_spec((b >> 4) & 0x01),
            instant_on_threshold: InstantOnThreshold::from_bits_spec((b >> 5) & 0x01),
            reserved: bit_spec(b, 6),
            i2c_high_speed_enable: bit_spec(b, 7),
        }
    }

    /// Decodes a raw `POWER_CTL` byte.
    #[verifier::when_used_as_spec(decode_spec)]
    pub fn decode(b: u8) -> (r: PowerControl)
        ensures
            r == PowerControl::decode_spec(b),
    {
        proof {
            reveal(PowerControl::decode_spec);
        }
        PowerControl {
            mode: PowerMode::from_bits(b & 0x03),
            hpf_disable: bit(b, 2),
            lpf_disable: bit(b, 3),
            filter_settle: SettleFilter::from_bits((b >> 4) & 0x01),
            instant_on_threshold: InstantOnThreshold::from_bits((b >> 5) & 0x01),
            reserved: bit(b, 6),
            i2c_high_speed_enable: bit(b, 7),
        }
    }

    /// Encoding of this view as a raw byte.
    #[verifier::opaque]
    pub open spec fn encode_spec(self) -> u8 {
        self.mode.bits_spec() | bit_byte_spec(self.hpf_disable, 2) | bit_byte_spec(
            self.lpf_disable,
            3,
        ) | (self.filter_settle.bits_spec() << 4) | (self.instant_on_threshold.bits_spec() << 5)
            | bit_byte_spec(self.reserved, 6) | bit_byte_spec(self.i2c_high_speed_enable, 7)
    }

    /// Encodes this view as a raw byte.
    #[verifier::when_used_as_spec(encode_spec)]
    pub fn encode(self) -> (r: u8)
        ensures
            r == self.encode_spec(),
    {
        proof {
            reveal(PowerControl::encode_spec);
        }
        self.mode.bits() | bit_byte(self.hpf_disable, 2) | bit_byte(self.lpf_disable, 3) | (
        self.filter_settle.bits() << 4) | (self.instant_on_threshold.bits() << 5) | bit_byte(
            self.reserved,
            6,
        ) | bit_byte(self.i2c_high_speed_enable, 7)
    }

    /// Round-trip fidelity: every `POWER_CTL` byte decodes and re-encodes to
    /// itself.
    pub proof fn lemma_round_trip(b: u8)
        ensures
            PowerControl::decode_spec(b).encode_spec() == b,
    {
        reveal(PowerControl::decode_spec);
        reveal(PowerControl::encode_spec);
        reveal(PowerMode::bits_spec);
        reveal(PowerMode::from_bits_spec);
        reveal(SettleFilter::bits_spec);
        reveal(SettleFilter::from_bits_spec);
        reveal(InstantOnThreshold::bits_spec);
        reveal(InstantOnThreshold::from_bits_spec);
        assert(b & 0x03 < 4 && (b >> 4) & 0x01 < 2 && (b >> 5) & 0x01 < 2) by (bit_vector);
        assert((b & 0x03) | (if (b >> 2) & 1 == 1 {
            1u8 << 2
        } else {
            0
        }) | (if (b >> 3) & 1 == 1 {
            1u8 << 3
        } else {
            0
        }) | (((b >> 4) & 0x01) << 4) | (((b >> 5) & 0x01) << 5) | (if (b >> 6) & 1 == 1 {
            1u8 << 6
        } else {
            0
        }) | (if (b >> 7) & 1 == 1 {
            1u8 << 7
        } else {
            0
        }) == b) by (bit_vector);
    }

    /// Decoding inverts encoding: every view comes back unchanged from its
    /// own byte.
    pub proof fn lemma_encode_decode(v: PowerControl)
        ensures
            PowerControl::decode_spec(v.encode_spec()) == v,
    {
        reveal(PowerControl::decode_spec);
        reveal(PowerControl::encode_spec);
        reveal(PowerMode::bits_spec);
        reveal(PowerMode::from_bits_spec);
        reveal(SettleFilter::bits_spec);
        reveal(SettleFilter::from_bits_spec);
        reveal(InstantOnThreshold::bits_spec);
        reveal(InstantOnThreshold::from_bits_spec);
        let x0 = v.mode.bits_spec();
        let x4 = v.filter_settle.bits_spec();
        let x5 = v.instant_on_threshold.bits_spec();
        let b2 = v.hpf_disable;
        let b3 = v.lpf_disable;
        let b6 = v.reserved;
        let b7 = v.i2c_high_speed_enable;
        let e = x0 | (if b2 {
            1u8 << 2
        } else {
            0
        }) | (if b3 {
            1u8 << 3
        } else {
            0
        }) | (x4 << 4) | (x5 << 5) | (if b6 {
            1u8 << 6
        } else {
            0
        }) | (if b7 {
            1u8 << 7
        } else {
            0
        });
        assert(e & 0x03 == x0 && ((e >> 2) & 1 == 1) == b2 && ((e >> 3) & 1 == 1) == b3 && (e >> 4)
            & 0x01 == x4 && (e >> 5) & 0x01 == x5 && ((e >> 6) & 1 == 1) == b6 && ((e >> 7) & 1
            == 1) == b7) by (bit_vector)
            requires
                x0 < 4,
                x4 < 2,
                x5 < 2,
                e == x0 | (if b2 {
                    1u8 << 2
                } else {
                    0
                }) | (if b3 {
                    1u8 << 3
                } else {
                    0
                }) | (x4 << 4) | (x5 << 5) | (if b6 {
                    1u8 << 6
                } else {
                    0
                }) | (if b7 {
                    1u8 << 7
                } else {
                    0
                }),
        ;
    }
}

/// Typed view of the `SELF_TEST` register (address `0x40`).
#[derive(Debug, Clone, Copy, PartialEq, Eq, Structural)]
pub struct SelfTest {
    /// Self-test enable bit (bit 0).
    pub st: bool,
    /// Self-test complete flag (bit 1).
    pub st_done: bool,
    /// User self-test pass flag (bit 2).
    pub user_st: bool,
    /// Reserved bits 7:3, preserved across decode/encode.
    pub reserved: u8,
}

impl SelfTest {
    /// Reserved bits stay inside their range.
    pub open spec fn wf(self) -> bool {
        self.reserved < 32
    }

    /// Decoding of a raw `SELF_TEST` byte.
    #[verifier::opaque]
    pub open spec fn decode_spec(b: u8) -> SelfTest {
        SelfTest {
            st: bit_spec(b, 0),
            st_done: bit_spec(b, 1),
            user_st: bit_spec(b, 2),
            reserved: (b >> 3) & 0x1F,
        }
    }

    /// Decodes a raw `SELF_TEST` byte.
    #[verifier::when_used_as_spec(decode_spec)]
    pub fn decode(b: u8) -> (r: SelfTest)
        ensures
            r == SelfTest::decode_spec(b),
    {
        proof {
            reveal(SelfTest::decode_spec);
        }
        SelfTest {
            st: bit(b, 0),
            st_done: bit(b, 1),
            user_st: bit(b, 2),
            reserved: (b >> 3) & 0x1F,
        }
    }

    /// Encoding of this view as a raw byte; reserved bits are masked to
    /// their range.
    #[verifier::opaque]
    pub open spec fn encode_spec(self) -> u8 {
        bit_byte_spec(self.st, 0) | bit_byte_spec(self.st_done, 1) | bit_byte_spec(self.user_st, 2)
            | ((self.reserved & 0x1F) << 3)
    }

    /// Encodes this view as a raw byte.
    #[verifier::when_used_as_spec(encode_spec)]
    pub fn encode(self) -> (r: u8)
        ensures
            r == self.encode_spec(),
    {
        proof {
            reveal(SelfTest::encode_spec);
        }
        bit_byte(self.st, 0) | bit_byte(self.st_done, 1) | bit_byte(self.user_st, 2) | ((
        self.reserved & 0x1F) << 3)
    }

    /// Round-trip fidelity: every `SELF_TEST` byte decodes and re-encodes to
    /// itself.
    pub proof fn lemma_round_trip(b: u8)
        ensures
            SelfTest::decode_spec(b).encode_spec() == b,
    {
        reveal(SelfTest::decode_spec);
        reveal(SelfTest::encode_spec);
        assert((if (b >> 0) & 1 == 1 {
            1u8 << 0
        } else {
            0
        }) | (if (b >> 1) & 1 == 1 {
            1u8 << 1
        } else {
            0
        }) | (if (b >> 2) & 1 == 1 {
            1u8 << 2
        } else {
            0
        }) | ((((b >> 3) & 0x1F) & 0x1F) << 3) == b) by (bit_vector);
    }

    /// Decoding inverts encoding for well-formed views.
    pub proof fn lemma_encode_decode(v: SelfTest)
        requires
            v.wf(),
        ensures
            SelfTest::decode_spec(v.encode_spec()) == v,
    {
        reveal(SelfTest::decode_spec);
        reveal(SelfTest::encode_spec);
        let b0 = v.st;
        let b1 = v.st_done;
        let b2 = v.user_st;
        let x3 = v.reserved;
        let e = (if b0 {
            1u8 << 0
        } else {
            0
        }) | (if b1 {
            1u8 << 1
        } else {
            0
        }) | (if b2 {
            1u8 << 2
        } else {
            0
        }) | ((x3 & 0x1F) << 3);
        assert(((e >> 0) & 1 == 1) == b0 && ((e >> 1) & 1 == 1) == b1 && ((e >> 2) & 1 == 1) == b2
            && (e >> 3) & 0x1F == x3) by (bit_vector)
            requires
                x3 < 32,
                e == (if b0 {
                    1u8 << 0
                } else {
                    0
                }) | (if b1 {
                    1u8 << 1
                } else {
                    0
                }) | (if b2 {
                    1u8 << 2
                } else {
                    0
                }) | ((x3 & 0x1F) << 3),
        ;
    }
}

/// Typed view of the upper bits of the FIFO entry counter
/// (`FIFO_ENTRIES2`, address `0x06`).
#[derive(Debug, Clone, Copy, PartialEq, Eq, Structural)]
pub struct FifoEntriesUpper {
    /// Bits 9:8 of the FIFO entry counter (bits 1:0).
    pub upper: u8,
    /// Reserved bits 7:2, preserved across decode/encode.
    pub reserved: u8,
}

impl FifoEntriesUpper {
    /// Both fields stay inside their bit ranges.
    pub open spec fn wf(self) -> bool {
        self.upper < 4 && self.reserved < 64
    }

    /// Decoding of a raw `FIFO_ENTRIES2` byte.
    pub open spec fn decode_spec(b: u8) -> FifoEntriesUpper {
        FifoEntriesUpper { upper: b & 0x03, reserved: (b >> 2) & 0x3F }
    }

    /// Decodes a raw `FIFO_ENTRIES2` byte.
    #[verifier::when_used_as_spec(decode_spec)]
    pub fn decode(b: u8) -> (r: FifoEntriesUpper)
        ensures
            r == FifoEntriesUpper::decode_spec(b),
    {
        FifoEntriesUpper { upper: b & 0x03, reserved: (b >> 2) & 0x3F }
    }

    /// Encoding of this view as a raw byte; fields are masked to their
    /// ranges.
    pub open spec fn encode_spec(self) -> u8 {
        (self.upper & 0x03) | ((self.reserved & 0x3F) << 2)
    }

    /// Encodes this view as a raw byte.
    #[verifier::when_used_as_spec(encode_spec)]
    pub fn encode(self) -> (r: u8)
        ensures
            r == self.encode_spec(),
    {
        (self.upper & 0x03) | ((self.reserved & 0x3F) << 2)
    }

    /// Round-trip fidelity: every `FIFO_ENTRIES2` byte decodes and
    /// re-encodes to itself.
    pub proof fn lemma_round_trip(b: u8)
        ensures
            FifoEntriesUpper::decode_spec(b).encode_spec() == b,
    {
        assert(((b & 0x03) & 0x03) | ((((b >> 2) & 0x3F) & 0x3F) << 2) == b) by (bit_vector);
    }

    /// The upper two bits of the FIFO entry count as a small integer.
    pub open spec fn as_u16_spec(self) -> u16 {
        self.upper as u16
    }

    /// Returns the upper two bits of the FIFO entry count as a small
    /// integer.
    #[verifier::when_used_as_spec(as_u16_spec)]
    pub fn as_u16(self) -> (r: u16)
        ensures
            r == self.as_u16_spec(),
    {
        self.upper as u16
    }
}

/// Typed view of the `FIFO_CTL` register (address `0x3A`).
#[derive(Debug, Clone, Copy, PartialEq, Eq, Structural)]
pub struct FifoControl {
    /// Most significant bit of the FIFO sample watermark (bit 0).
    pub samples_msb: bool,
    /// FIFO operating mode selection (bits 2:1).
    pub mode: FifoMode,
    /// FIFO data packing format (bits 5:3).
    pub format: FifoFormat,
    /// Reserved bits 7:6, preserved across decode/encode.
    pub reserved: u8,
}

impl FifoControl {
    /// Reserved bits stay inside their range.
    pub open spec fn wf(self) -> bool {
        self.reserved < 4
    }

    /// Decoding of a raw `FIFO_CTL` byte; every pattern is defined.
    pub open spec fn decode_spec(b: u8) -> FifoControl {
        FifoControl {
            samples_msb: bit_spec(b, 0),
            mode: FifoMode::from_bits_spec((b >> 1) & 0x03),
            format: FifoFormat::from_bits_spec((b >> 3) & 0x07),
            reserved: (b >> 6) & 0x03,
        }
    }

    /// Decodes a raw `FIFO_CTL` byte.
    #[verifier::when_used_as_spec(decode_spec)]
    pub fn decode(b: u8) -> (r: FifoControl)
        ensures
            r == FifoControl::decode_spec(b),
    {
        FifoControl {
            samples_msb: bit(b, 0),
            mode: FifoMode::from_bits((b >> 1) & 0x03),
            format: FifoFormat::from_bits((b >> 3) & 0x07),
            reserved: (b >> 6) & 0x03,
        }
    }

    /// Encoding of this view as a raw byte; reserved bits are masked to
    /// their range.
    pub open spec fn encode_spec(self) -> u8 {
        bit_byte_spec(self.samples_msb, 0) | (self.mode.bits_spec() << 1) | (
        self.format.bits_spec() << 3) | ((self.reserved & 0x03) << 6)
    }

    /// Encodes this view as a raw byte.
    #[verifier::when_used_as_spec(encode_spec)]
    pub fn encode(self) -> (r: u8)
        ensures
            r == self.encode_spec(),
    {
        bit_byte(self.samples_msb, 0) | (self.mode.bits() << 1) | (self.format.bits() << 3) | ((
        self.reserved & 0x03) << 6)
    }

    /// Round-trip fidelity: every `FIFO_CTL` byte decodes and re-encodes to
    /// itself.
    pub proof fn lemma_round_trip(b: u8)
        ensures
            FifoControl::decode_spec(b).encode_spec() == b,
    {
        reveal(FifoMode::bits_spec);
        reveal(FifoMode::from_bits_spec);
        reveal(FifoFormat::bits_spec);
        reveal(FifoFormat::from_bits_spec);
        assert((b >> 1) & 0x03 < 4 && (b >> 3) & 0x07 < 8) by (bit_vector);
        assert((if (b >> 0) & 1 == 1 {
            1u8 << 0
        } else {
            0
        }) | (((b >> 1) & 0x03) << 1) | (((b >> 3) & 0x07) << 3) | ((((b >> 6) & 0x03) & 0x03)
            << 6) == b) by (bit_vector);
    }

    /// Decoding inverts encoding for well-formed views.
    pub proof fn lemma_encode_decode(v: FifoControl)
        requires
            v.wf(),
        ensures
            FifoControl::decode_spec(v.encode_spec()) == v,
    {
        reveal(FifoMode::bits_spec);
        reveal(FifoMode::from_bits_spec);
        reveal(FifoFormat::bits_spec);
        reveal(FifoFormat::from_bits_spec);
        let b0 = v.samples_msb;
        let x1 = v.mode.bits_spec();
        let x3 = v.format.bits_spec();
        let x6 = v.reserved;
        let e = (if b0 {
            1u8 << 0
        } else {
            0
        }) | (x1 << 1) | (x3 << 3) | ((x6 & 0x03) << 6);
        assert(((e >> 0) & 1 == 1) == b0 && (e >> 1) & 0x03 == x1 && (e >> 3) & 0x07 == x3 && (e
            >> 6) & 0x03 == x6) by (bit_vector)
            requires
                x1 < 4,
                x3 < 8,
                x6 < 4,
                e == (if b0 {
                    1u8 << 0
                } else {
                    0
                }) | (x1 << 1) | (x3 << 3) | ((x6 & 0x03) << 6),
        ;
    }
}

impl Register for Status {
    open spec fn spec_address() -> u8 {
        REG_STATUS
    }

    open spec fn spec_access() -> RegisterAccess {
        RegisterAccess::ReadOnly
    }

    open spec fn spec_reset_value() -> Option<u8> {
        Some(0xA0)
    }

    fn address() -> (r: u8) {
        REG_STATUS
    }

    fn access() -> (r: RegisterAccess) {
        RegisterAccess::ReadOnly
    }

    fn reset_value() -> (r: Option<u8>) {
        Some(0xA0)
    }
}

impl Register for Status2 {
    open spec fn spec_address() -> u8 {
        REG_STATUS2
    }

    open spec fn spec_access() -> RegisterAccess {
        RegisterAccess::ReadOnly
    }

    open spec fn spec_reset_value() -> Option<u8> {
        Some(0x00)
    }

    fn address() -> (r: u8) {
        REG_STATUS2
    }

    fn access() -> (r: RegisterAccess) {
        RegisterAccess::ReadOnly
    }

    fn reset_value() -> (r: Option<u8>) {
        Some(0x00)
    }
}

impl Register for FifoControl {
    open spec fn spec_address() -> u8 {
        REG_FIFO_CTL
    }

    open spec fn spec_access() -> RegisterAccess {
        RegisterAccess::ReadWrite
    }

    open spec fn spec_reset_value() -> Option<u8> {
        Some(0x00)
    }

    fn address() -> (r: u8) {
        REG_FIFO_CTL
    }

    fn access() -> (r: RegisterAccess) {
        RegisterAccess::ReadWrite
    }

    fn reset_value() -> (r: Option<u8>) {
        Some(0x00)
    }
}

impl Register for Timing {
    open spec fn spec_address() -> u8 {
        REG_TIMING
    }

    open spec fn spec_access() -> RegisterAccess {
        RegisterAccess::ReadWrite
    }

    open spec fn spec_reset_value() -> Option<u8> {
        Some(0x00)
    }

    fn address() -> (r: u8) {
        REG_TIMING
    }

    fn access() -> (r: RegisterAccess) {
        RegisterAccess::ReadWrite
    }

    fn reset_value() -> (r: Option<u8>) {
        Some(0x00)
    }
}

impl Register for Measure {
    open spec fn spec_address() -> u8 {
        REG_MEASURE
    }

    open spec fn spec_access() -> RegisterAccess {
        RegisterAccess::ReadWrite
    }

    open spec fn spec_reset_value() -> Option<u8> {
        Some(0x00)
    }

    fn address() -> (r: u8) {
        REG_MEASURE
    }

    fn access() -> (r: RegisterAccess) {
        RegisterAccess::ReadWrite
    }

    fn reset_value() -> (r: Option<u8>) {
        Some(0x00)
    }
}

impl Register for PowerControl {
    open spec fn spec_address() -> u8 {
        REG_POWER_CTL
    }

    open spec fn spec_access() -> RegisterAccess {
        RegisterAccess::ReadWrite
    }

    open spec fn spec_reset_value() -> Option<u8> {
        Some(0x00)
    }

    fn address() -> (r: u8) {
        REG_POWER_CTL
    }

    fn access() -> (r: RegisterAccess) {
        RegisterAccess::ReadWrite
    }

    fn reset_value() -> (r: Option<u8>) {
        Some(0x00)
    }
}

impl Register for SelfTest {
    open spec fn spec_address() -> u8 {
        REG_SELF_TEST
    }

    open spec fn spec_access() -> RegisterAccess {
        RegisterAccess::ReadWrite
    }

    open spec fn spec_reset_value() -> Option<u8> {
        Some(0x00)
    }

    fn address() -> (r: u8) {
        REG_SELF_TEST
    }

    fn access() -> (r: RegisterAccess) {
        RegisterAccess::ReadWrite
    }

    fn reset_value() -> (r: Option<u8>) {
        Some(0x00)
    }
}

/// Encodes the FIFO entry count from the upper and lower registers.
pub fn fifo_entry_count(upper: FifoEntriesUpper, lower: u8) -> (r: u16)
    ensures
        r == (upper.upper & 0x03) * 256 + lower,
        r < 1024,
{
    let raw = upper.upper;
    let u = raw & 0x03;
    assert(raw & 0x03 < 4) by (bit_vector);
    assert(((u as u16) << 8 | lower as u16) == u * 256 + lower && u * 256 + lower < 1024)
        by (bit_vector)
        requires
            u < 4,
    ;
    (u as u16) << 8 | lower as u16
}

/// Splits the FIFO entry count into upper and lower register values.
pub fn split_fifo_entry_count(count: u16) -> (r: (FifoEntriesUpper, u8))
    ensures
        r.0.upper == (count / 256) % 4,
        r.0.reserved == 0,
        r.1 == count % 256,
        count < 1024 ==> (r.0.upper & 0x03) * 256 + r.1 == count,
{
    let upper_bits = ((count >> 8) & 0x03) as u8;
    let lower = (count & 0xFF) as u8;
    assert((count >> 8) & 0x03 == (count / 256) % 4 && count & 0xFF == count % 256 && ((count >> 8)
        & 0x03) < 4 && (count < 1024 ==> (((count >> 8) & 0x03) & 0x03) * 256 + (count & 0xFF)
        == count)) by (bit_vector);
    (FifoEntriesUpper { upper: upper_bits, reserved: 0 }, lower)
}

} // verus!

