//! Strongly typed parameter selections for the ADXL372 driver.
//!
//! Each enumeration mirrors one field of a control register. The `bits`
//! methods give the bit pattern a selection occupies in its register; the
//! `from_bits` methods decode a pattern back into a selection. Decoding is
//! total: patterns above the highest defined selection decode to the highest
//! selection, so only the defined patterns are representable and round-trip.

use vstd::prelude::*;

verus! {

/// Available output data rate (ODR) selections, stored in `TIMING[7:5]`.
#[derive(Debug, Clone, Copy, PartialEq, Eq, Structural)]
pub enum OutputDataRate {
    /// 400 Hz output data rate.
    Od400Hz,
    /// 800 Hz output data rate.
    Od800Hz,
    /// 1600 Hz output data rate.
    Od1600Hz,
    /// 3200 Hz output data rate.
    Od3200Hz,
    /// 6400 Hz output data rate.
    Od6400Hz,
}

impl OutputDataRate {
    /// Bit pattern for this selection.
    #[verifier::opaque]
    pub open spec fn bits_spec(self) -> u8 {
        match self {
            OutputDataRate::Od400Hz => 0,
            OutputDataRate::Od800Hz => 1,
            OutputDataRate::Od1600Hz => 2,
            OutputDataRate::Od3200Hz => 3,
            OutputDataRate::Od6400Hz => 4,
        }
    }

    /// Bit pattern for this selection.
    #[verifier::when_used_as_spec(bits_spec)]
    pub fn bits(self) -> (r: u8)
        ensures
            r == self.bits_spec(),
    {
        proof { reveal(OutputDataRate::bits_spec); }
        match self {
            OutputDataRate::Od400Hz => 0,
            OutputDataRate::Od800Hz => 1,
            OutputDataRate::Od1600Hz => 2,
            OutputDataRate::Od3200Hz => 3,
            OutputDataRate::Od6400Hz => 4,
        }
    }

    /// Whether a 3-bit pattern is a defined selection.
    pub open spec fn bits_valid(bits: u8) -> bool {
        bits < 5
    }

    /// Total decoding of a 3-bit pattern; undefined patterns decode to the
    /// highest selection.
    #[verifier::opaque]
    pub open spec fn from_bits_spec(bits: u8) -> OutputDataRate {
        if bits == 0 {
            OutputDataRate::Od400Hz
        } else if bits == 1 {
            OutputDataRate::Od800Hz
        } else if bits == 2 {
            OutputDataRate::Od1600Hz
        } else if bits == 3 {
            OutputDataRate::Od3200Hz
        } else {
            OutputDataRate::Od6400Hz
        }
    }

    /// Total decoding of a 3-bit pattern.
    #[verifier::when_used_as_spec(from_bits_spec)]
    pub fn from_bits(bits: u8) -> (r: OutputDataRate)
        ensures
            r == OutputDataRate::from_bits_spec(bits),
    {
        proof { reveal(OutputDataRate::from_bits_spec); }
        if bits == 0 {
            OutputDataRate::Od400Hz
        } else if bits == 1 {
            OutputDataRate::Od800Hz
        } else if bits == 2 {
            OutputDataRate::Od1600Hz
        } else if bits == 3 {
            OutputDataRate::Od3200Hz
        } else {
            OutputDataRate::Od6400Hz
        }
    }

    /// The ODR in hertz as an integer value.
    pub open spec fn hz_spec(self) -> u32 {
        match self {
            OutputDataRate::Od400Hz => 400,
            OutputDataRate::Od800Hz => 800,
            OutputDataRate::Od1600Hz => 1600,
            OutputDataRate::Od3200Hz => 3200,
            OutputDataRate::Od6400Hz => 6400,
        }
    }

    /// Returns the ODR in hertz as an integer value.
    #[verifier::when_used_as_spec(hz_spec)]
    pub fn hz(self) -> (r: u32)
        ensures
            r == self.hz_spec(),
    {
        match self {
            OutputDataRate::Od400Hz => 400,
            OutputDataRate::Od800Hz => 800,
            OutputDataRate::Od1600Hz => 1600,
            OutputDataRate::Od3200Hz => 3200,
            OutputDataRate::Od6400Hz => 6400,
        }
    }
}

/// Available analog bandwidth selections, stored in `MEASURE[2:0]`.
#[derive(Debug, Clone, Copy, PartialEq, Eq, Structural)]
pub enum Bandwidth {
    /// 200 Hz bandwidth.
    Bw200Hz,
    /// 400 Hz bandwidth.
    Bw400Hz,
    /// 800 Hz bandwidth.
    Bw800Hz,
    /// 1600 Hz bandwidth.
    Bw1600Hz,
}

impl Bandwidth {
    /// Bit pattern for this selection.
    #[verifier::opaque]
    pub open spec fn bits_spec(self) -> u8 {
        match self {
            Bandwidth::Bw200Hz => 0,
            Bandwidth::Bw400Hz => 1,
            Bandwidth::Bw800Hz => 2,
            Bandwidth::Bw1600Hz => 3,
        }
    }

    /// Bit pattern for this selection.
    #[verifier::when_used_as_spec(bits_spec)]
    pub fn bits(self) -> (r: u8)
        ensures
            r == self.bits_spec(),
    {
        proof { reveal(Bandwidth::bits_spec); }
        match self {
            Bandwidth::Bw200Hz => 0,
            Bandwidth::Bw400Hz => 1,
            Bandwidth::Bw800Hz => 2,
            Bandwidth::Bw1600Hz => 3,
        }
    }

    /// Whether a 3-bit pattern is a defined selection.
    pub open spec fn bits_valid(bits: u8) -> bool {
        bits < 4
    }

    /// Total decoding of a 3-bit pattern; undefined patterns decode to the
    /// highest selection.
    #[verifier::opaque]
    pub open spec fn from_bits_spec(bits: u8) -> Bandwidth {
        if bits == 0 {
            Bandwidth::Bw200Hz
        } else if bits == 1 {
            Bandwidth::Bw400Hz
        } else if bits == 2 {
            Bandwidth::Bw800Hz
        } else {
            Bandwidth::Bw1600Hz
        }
    }

    /// Total decoding of a 3-bit pattern.
    #[verifier::when_used_as_spec(from_bits_spec)]
    pub fn from_bits(bits: u8) -> (r: Bandwidth)
        ensures
            r == Bandwidth::from_bits_spec(bits),
    {
        proof { reveal(Bandwidth::from_bits_spec); }
        if bits == 0 {
            Bandwidth::Bw200Hz
        } else if bits == 1 {
            Bandwidth::Bw400Hz
        } else if bits == 2 {
            Bandwidth::Bw800Hz
        } else {
            Bandwidth::Bw1600Hz
        }
    }

    /// The maximum supported frequency in hertz.
    pub open spec fn max_hz_spec(self) -> u32 {
        match self {
            Bandwidth::Bw200Hz => 200,
            Bandwidth::Bw400Hz => 400,
            Bandwidth::Bw800Hz => 800,
            Bandwidth::Bw1600Hz => 1600,
        }
    }

    /// Returns the maximum supported frequency in hertz.
    #[verifier::when_used_as_spec(max_hz_spec)]
    pub fn max_hz(self) -> (r: u32)
        ensures
            r == self.max_hz_spec(),
    {
        match self {
            Bandwidth::Bw200Hz => 200,
            Bandwidth::Bw400Hz => 400,
            Bandwidth::Bw800Hz => 800,
            Bandwidth::Bw1600Hz => 1600,
        }
    }
}

/// FIFO packing formats encoded in `FIFO_CTL[5:3]`.
#[derive(Debug, Clone, Copy, PartialEq, Eq, Structural)]
pub enum FifoFormat {
    /// All axes interleaved (X, Y, Z).
    XYZ,
    /// X-axis samples only.
    X,
    /// Y-axis samples only.
    Y,
    /// X and Y axes interleaved.
    XY,
    /// Z-axis samples only.
    Z,
    /// X and Z axes interleaved.
    XZ,
    /// Y and Z axes interleaved.
    YZ,
    /// Peak acceleration reporting.
    Peak,
}

impl FifoFormat {
    /// Bit pattern for this selection.
    #[verifier::opaque]
    pub open spec fn bits_spec(self) -> u8 {
        match self {
            FifoFormat::XYZ => 0,
            FifoFormat::X => 1,
            FifoFormat::Y => 2,
            FifoFormat::XY => 3,
            FifoFormat::Z => 4,
            FifoFormat::XZ => 5,
            FifoFormat::YZ => 6,
            FifoFormat::Peak => 7,
        }
    }

    /// Bit pattern for this selection.
    #[verifier::when_used_as_spec(bits_spec)]
    pub fn bits(self) -> (r: u8)
        ensures
            r == self.bits_spec(),
    {
        proof { reveal(FifoFormat::bits_spec); }
        match self {
            FifoFormat::XYZ => 0,
            FifoFormat::X => 1,
            FifoFormat::Y => 2,
            FifoFormat::XY => 3,
            FifoFormat::Z => 4,
            FifoFormat::XZ => 5,
            FifoFormat::YZ => 6,
            FifoFormat::Peak => 7,
        }
    }

    /// Total decoding of a 3-bit pattern; every pattern is defined.
    #[verifier::opaque]
    pub open spec fn from_bits_spec(bits: u8) -> FifoFormat {
        if bits == 0 {
            FifoFormat::XYZ
        } else if bits == 1 {
            FifoFormat::X
        } else if bits == 2 {
            FifoFormat::Y
        } else if bits == 3 {
            FifoFormat::XY
        } else if bits == 4 {
            FifoFormat::Z
        } else if bits == 5 {
            FifoFormat::XZ
        } else if bits == 6 {
            FifoFormat::YZ
        } else {
            FifoFormat::Peak
        }
    }

    /// Total decoding of a 3-bit pattern.
    #[verifier::when_used_as_spec(from_bits_spec)]
    pub fn from_bits(bits: u8) -> (r: FifoFormat)
        ensures
            r == FifoFormat::from_bits_spec(bits),
    {
        proof { reveal(FifoFormat::from_bits_spec); }
        if bits == 0 {
            FifoFormat::XYZ
        } else if bits == 1 {
            FifoFormat::X
        } else if bits == 2 {
            FifoFormat::Y
        } else if bits == 3 {
            FifoFormat::XY
        } else if bits == 4 {
            FifoFormat::Z
        } else if bits == 5 {
            FifoFormat::XZ
        } else if bits == 6 {
            FifoFormat::YZ
        } else {
            FifoFormat::Peak
        }
    }

    /// The number of axes encoded in each FIFO sample.
    pub open spec fn axis_count_spec(self) -> u8 {
        match self {
            FifoFormat::X | FifoFormat::Y | FifoFormat::Z => 1,
            FifoFormat::XY | FifoFormat::XZ | FifoFormat::YZ => 2,
            FifoFormat::XYZ | FifoFormat::Peak => 3,
        }
    }

    /// Returns the number of axes encoded in each FIFO sample.
    #[verifier::when_used_as_spec(axis_count_spec)]
    pub fn axis_count(self) -> (r: u8)
        ensures
            r == self.axis_count_spec(),
    {
        match self {
            FifoFormat::X | FifoFormat::Y | FifoFormat::Z => 1,
            FifoFormat::XY | FifoFormat::XZ | FifoFormat::YZ => 2,
            FifoFormat::XYZ | FifoFormat::Peak => 3,
        }
    }
}

/// FIFO operating modes encoded in `FIFO_CTL[2:1]`.
#[derive(Debug, Clone, Copy, PartialEq, Eq, Structural)]
pub enum FifoMode {
    /// FIFO disabled; bypassed.
    Bypass,
    /// Streaming mode (circular buffer).
    Stream,
    /// Trigger mode.
    Trigger,
    /// Oldest-saved mode.
    OldestSaved,
}

impl FifoMode {
    /// Bit pattern for this selection.
    #[verifier::opaque]
    pub open spec fn bits_spec(self) -> u8 {
        match self {
            FifoMode::Bypass => 0,
            FifoMode::Stream => 1,
            FifoMode::Trigger => 2,
            FifoMode::OldestSaved => 3,
        }
    }

    /// Bit pattern for this selection.
    #[verifier::when_used_as_spec(bits_spec)]
    pub fn bits(self) -> (r: u8)
        ensures
            r == self.bits_spec(),
    {
        proof { reveal(FifoMode::bits_spec); }
        match self {
            FifoMode::Bypass => 0,
            FifoMode::Stream => 1,
            FifoMode::Trigger => 2,
            FifoMode::OldestSaved => 3,
        }
    }

    /// Total decoding of a 2-bit pattern; every pattern is defined.
    #[verifier::opaque]
    pub open spec fn from_bits_spec(bits: u8) -> FifoMode {
        if bits == 0 {
            FifoMode::Bypass
        } else if bits == 1 {
            FifoMode::Stream
        } else if bits == 2 {
            FifoMode::Trigger
        } else {
            FifoMode::OldestSaved
        }
    }

    /// Total decoding of a 2-bit pattern.
    #[verifier::when_used_as_spec(from_bits_spec)]
    pub fn from_bits(bits: u8) -> (r: FifoMode)
        ensures
            r == FifoMode::from_bits_spec(bits),
    {
        proof { reveal(FifoMode::from_bits_spec); }
        if bits == 0 {
            FifoMode::Bypass
        } else if bits == 1 {
            FifoMode::Stream
        } else if bits == 2 {
            FifoMode::Trigger
        } else {
            FifoMode::OldestSaved
        }
    }
}

/// Wake-up timer selections encoded in `TIMING[4:2]` (milliseconds).
#[derive(Debug, Clone, Copy, PartialEq, Eq, Structural)]
pub enum WakeUpRate {
    /// 52 ms.
    Ms52,
    /// 104 ms.
    Ms104,
    /// 208 ms.
    Ms208,
    /// 512 ms.
    Ms512,
    /// 2048 ms.
    Ms2048,
    /// 4096 ms.
    Ms4096,
    /// 8192 ms.
    Ms8192,
    /// 24576 ms.
    Ms24576,
}

impl WakeUpRate {
    /// Bit pattern for this selection.
    #[verifier::opaque]
    pub open spec fn bits_spec(self) -> u8 {
        match self {
            WakeUpRate::Ms52 => 0,
            WakeUpRate::Ms104 => 1,
            WakeUpRate::Ms208 => 2,
            WakeUpRate::Ms512 => 3,
            WakeUpRate::Ms2048 => 4,
            WakeUpRate::Ms4096 => 5,
            WakeUpRate::Ms8192 => 6,
            WakeUpRate::Ms24576 => 7,
        }
    }

    /// Bit pattern for this selection.
    #[verifier::when_used_as_spec(bits_spec)]
    pub fn bits(self) -> (r: u8)
        ensures
            r == self.bits_spec(),
    {
        proof { reveal(WakeUpRate::bits_spec); }
        match self {
            WakeUpRate::Ms52 => 0,
            WakeUpRate::Ms104 => 1,
            WakeUpRate::Ms208 => 2,
            WakeUpRate::Ms512 => 3,
            WakeUpRate::Ms2048 => 4,
            WakeUpRate::Ms4096 => 5,
            WakeUpRate::Ms8192 => 6,
            WakeUpRate::Ms24576 => 7,
        }
    }

    /// Total decoding of a 3-bit pattern; every pattern is defined.
    #[verifier::opaque]
    pub open spec fn from_bits_spec(bits: u8) -> WakeUpRate {
        if bits == 0 {
            WakeUpRate::Ms52
        } else if bits == 1 {
            WakeUpRate::Ms104
        } else if bits == 2 {
            WakeUpRate::Ms208
        } else if bits == 3 {
            WakeUpRate::Ms512
        } else if bits == 4 {
            WakeUpRate::Ms2048
        } else if bits == 5 {
            WakeUpRate::Ms4096
        } else if bits == 6 {
            WakeUpRate::Ms8192
        } else {
            WakeUpRate::Ms24576
        }
    }

    /// Total decoding of a 3-bit pattern.
    #[verifier::when_used_as_spec(from_bits_spec)]
    pub fn from_bits(bits: u8) -> (r: WakeUpRate)
        ensures
            r == WakeUpRate::from_bits_spec(bits),
    {
        proof { reveal(WakeUpRate::from_bits_spec); }
        if bits == 0 {
            WakeUpRate::Ms52
        } else if bits == 1 {
            WakeUpRate::Ms104
        } else if bits == 2 {
            WakeUpRate::Ms208
        } else if bits == 3 {
            WakeUpRate::Ms512
        } else if bits == 4 {
            WakeUpRate::Ms2048
        } else if bits == 5 {
            WakeUpRate::Ms4096
        } else if bits == 6 {
            WakeUpRate::Ms8192
        } else {
            WakeUpRate::Ms24576
        }
    }

    /// The interval expressed in milliseconds.
    pub open spec fn millis_spec(self) -> u32 {
        match self {
            WakeUpRate::Ms52 => 52,
            WakeUpRate::Ms104 => 104,
            WakeUpRate::Ms208 => 208,
            WakeUpRate::Ms512 => 512,
            WakeUpRate::Ms2048 => 2048,
            WakeUpRate::Ms4096 => 4096,
            WakeUpRate::Ms8192 => 8192,
            WakeUpRate::Ms24576 => 24576,
        }
    }

    /// Returns the interval expressed in milliseconds.
    #[verifier::when_used_as_spec(millis_spec)]
    pub fn millis(self) -> (r: u32)
        ensures
            r == self.millis_spec(),
    {
        match self {
            WakeUpRate::Ms52 => 52,
            WakeUpRate::Ms104 => 104,
            WakeUpRate::Ms208 => 208,
            WakeUpRate::Ms512 => 512,
            WakeUpRate::Ms2048 => 2048,
            WakeUpRate::Ms4096 => 4096,
            WakeUpRate::Ms8192 => 8192,
            WakeUpRate::Ms24576 => 24576,
        }
    }
}

/// External clock enable bit (`TIMING[1]`).
#[derive(Debug, Clone, Copy, PartialEq, Eq, Structural)]
pub enum ExtClk {
    /// External clock disabled.
    Disabled,
    /// External clock enabled.
    Enabled,
}

impl ExtClk {
    /// Bit pattern for this selection.
    #[verifier::opaque]
    pub open spec fn bits_spec(self) -> u8 {
        match self {
            ExtClk::Disabled => 0,
            ExtClk::Enabled => 1,
        }
    }

    /// Bit pattern for this selection.
    #[verifier::when_used_as_spec(bits_spec)]
    pub fn bits(self) -> (r: u8)
        ensures
            r == self.bits_spec(),
    {
        proof { reveal(ExtClk::bits_spec); }
        match self {
            ExtClk::Disabled => 0,
            ExtClk::Enabled => 1,
        }
    }

    /// Total decoding of a 1-bit pattern.
    #[verifier::opaque]
    pub open spec fn from_bits_spec(bits: u8) -> ExtClk {
        if bits == 0 {
            ExtClk::Disabled
        } else {
            ExtClk::Enabled
        }
    }

    /// Total decoding of a 1-bit pattern.
    #[verifier::when_used_as_spec(from_bits_spec)]
    pub fn from_bits(bits: u8) -> (r: ExtClk)
        ensures
            r == ExtClk::from_bits_spec(bits),
    {
        proof { reveal(ExtClk::from_bits_spec); }
        if bits == 0 {
            ExtClk::Disabled
        } else {
            ExtClk::Enabled
        }
    }
}

/// External sync selection bit (`TIMING[0]`).
#[derive(Debug, Clone, Copy, PartialEq, Eq, Structural)]
pub enum ExtSync {
    /// External sync disabled.
    Disabled,
    /// External sync enabled.
    Enabled,
}

impl ExtSync {
    /// Bit pattern for this selection.
    #[verifier::opaque]
    pub open spec fn bits_spec(self) -> u8 {
        match self {
            ExtSync::Disabled => 0,
            ExtSync::Enabled => 1,
        }
    }

    /// Bit pattern for this selection.
    #[verifier::when_used_as_spec(bits_spec)]
    pub fn bits(self) -> (r: u8)
        ensures
            r == self.bits_spec(),
    {
        proof { reveal(ExtSync::bits_spec); }
        match self {
            ExtSync::Disabled => 0,
            ExtSync::Enabled => 1,
        }
    }

    /// Total decoding of a 1-bit pattern.
    #[verifier::opaque]
    pub open spec fn from_bits_spec(bits: u8) -> ExtSync {
        if bits == 0 {
            ExtSync::Disabled
        } else {
            ExtSync::Enabled
        }
    }

    /// Total decoding of a 1-bit pattern.
    #[verifier::when_used_as_spec(from_bits_spec)]
    pub fn from_bits(bits: u8) -> (r: ExtSync)
        ensures
            r == ExtSync::from_bits_spec(bits),
    {
        proof { reveal(ExtSync::from_bits_spec); }
        if bits == 0 {
            ExtSync::Disabled
        } else {
            ExtSync::Enabled
        }
    }
}

/// Low-noise modes encoded in `MEASURE[3]`.
#[derive(Debug, Clone, Copy, PartialEq, Eq, Structural)]
pub enum LowNoise {
    /// Normal noise performance.
    Normal,
    /// Low-noise mode.
    LowNoise,
}

impl LowNoise {
    /// Bit pattern for this selection.
    #[verifier::opaque]
    pub open spec fn bits_spec(self) -> u8 {
        match self {
            LowNoise::Normal => 0,
            LowNoise::LowNoise => 1,
        }
    }

    /// Bit pattern for this selection.
    #[verifier::when_used_as_spec(bits_spec)]
    pub fn bits(self) -> (r: u8)
        ensures
            r == self.bits_spec(),
    {
        proof { reveal(LowNoise::bits_spec); }
        match self {
            LowNoise::Normal => 0,
            LowNoise::LowNoise => 1,
        }
    }

    /// Total decoding of a 1-bit pattern.
    #[verifier::opaque]
    pub open spec fn from_bits_spec(bits: u8) -> LowNoise {
        if bits == 0 {
            LowNoise::Normal
        } else {
            LowNoise::LowNoise
        }
    }

    /// Total decoding of a 1-bit pattern.
    #[verifier::when_used_as_spec(from_bits_spec)]
    pub fn from_bits(bits: u8) -> (r: LowNoise)
        ensures
            r == LowNoise::from_bits_spec(bits),
    {
        proof { reveal(LowNoise::from_bits_spec); }
        if bits == 0 {
            LowNoise::Normal
        } else {
            LowNoise::LowNoise
        }
    }
}

/// Filter settle durations in `POWER_CTL[4]`.
#[derive(Debug, Clone, Copy, PartialEq, Eq, Structural)]
pub enum SettleFilter {
    /// 370 ms settle time.
    Ms370,
    /// 16 ms settle time.
    Ms16,
}

impl SettleFilter {
    /// Bit pattern for this selection.
    #[verifier::opaque]
    pub open spec fn bits_spec(self) -> u8 {
        match self {
            SettleFilter::Ms370 => 0,
            SettleFilter::Ms16 => 1,
        }
    }

    /// Bit pattern for this selection.
    #[verifier::when_used_as_spec(bits_spec)]
    pub fn bits(self) -> (r: u8)
        ensures
            r == self.bits_spec(),
    {
        proof { reveal(SettleFilter::bits_spec); }
        match self {
            SettleFilter::Ms370 => 0,
            SettleFilter::Ms16 => 1,
        }
    }

    /// Total decoding of a 1-bit pattern.
    #[verifier::opaque]
    pub open spec fn from_bits_spec(bits: u8) -> SettleFilter {
        if bits == 0 {
            SettleFilter::Ms370
        } else {
            SettleFilter::Ms16
        }
    }

    /// Total decoding of a 1-bit pattern.
    #[verifier::when_used_as_spec(from_bits_spec)]
    pub fn from_bits(bits: u8) -> (r: SettleFilter)
        ensures
            r == SettleFilter::from_bits_spec(bits),
    {
        proof { reveal(SettleFilter::from_bits_spec); }
        if bits == 0 {
            SettleFilter::Ms370
        } else {
            SettleFilter::Ms16
        }
    }

    /// The nominal settle time in milliseconds.
    pub open spec fn millis_spec(self) -> u16 {
        match self {
            SettleFilter::Ms370 => 370,
            SettleFilter::Ms16 => 16,
        }
    }

    /// Returns the nominal settle time in milliseconds.
    #[verifier::when_used_as_spec(millis_spec)]
    pub fn millis(self) -> (r: u16)
        ensures
            r == self.millis_spec(),
    {
        match self {
            SettleFilter::Ms370 => 370,
            SettleFilter::Ms16 => 16,
        }
    }
}

/// Instant-on thresholds encoded in `POWER_CTL[5]`.
#[derive(Debug, Clone, Copy, PartialEq, Eq, Structural)]
pub enum InstantOnThreshold {
    /// 10 g ±5 g threshold.
    Low,
    /// 30 g ±10 g threshold.
    High,
}

impl InstantOnThreshold {
    /// Bit pattern for this selection.
    #[verifier::opaque]
    pub open spec fn bits_spec(self) -> u8 {
        match self {
            InstantOnThreshold::Low => 0,
            InstantOnThreshold::High => 1,
        }
    }

    /// Bit pattern for this selection.
    #[verifier::when_used_as_spec(bits_spec)]
    pub fn bits(self) -> (r: u8)
        ensures
            r == self.bits_spec(),
    {
        proof { reveal(InstantOnThreshold::bits_spec); }
        match self {
            InstantOnThreshold::Low => 0,
            InstantOnThreshold::High => 1,
        }
    }

    /// Total decoding of a 1-bit pattern.
    #[verifier::opaque]
    pub open spec fn from_bits_spec(bits: u8) -> InstantOnThreshold {
        if bits == 0 {
            InstantOnThreshold::Low
        } else {
            InstantOnThreshold::High
        }
    }

    /// Total decoding of a 1-bit pattern.
    #[verifier::when_used_as_spec(from_bits_spec)]
    pub fn from_bits(bits: u8) -> (r: InstantOnThreshold)
        ensures
            r == InstantOnThreshold::from_bits_spec(bits),
    {
        proof { reveal(InstantOnThreshold::from_bits_spec); }
        if bits == 0 {
            InstantOnThreshold::Low
        } else {
            InstantOnThreshold::High
        }
    }
}

/// Link/loop interaction modes encoded in `MEASURE[5:4]`.
#[derive(Debug, Clone, Copy, PartialEq, Eq, Structural)]
pub enum LinkLoopMode {
    /// Default (unlinked) mode.
    Default,
    /// Linked activity/inactivity detectors.
    Linked,
    /// Loop mode.
    Loop,
}

impl LinkLoopMode {
    /// Bit pattern for this selection.
    #[verifier::opaque]
    pub open spec fn bits_spec(self) -> u8 {
        match self {
            LinkLoopMode::Default => 0,
            LinkLoopMode::Linked => 1,
            LinkLoopMode::Loop => 2,
        }
    }

    /// Bit pattern for this selection.
    #[verifier::when_used_as_spec(bits_spec)]
    pub fn bits(self) -> (r: u8)
        ensures
            r == self.bits_spec(),
    {
        proof { reveal(LinkLoopMode::bits_spec); }
        match self {
            LinkLoopMode::Default => 0,
            LinkLoopMode::Linked => 1,
            LinkLoopMode::Loop => 2,
        }
    }

    /// Whether a 2-bit pattern is a defined selection.
    pub open spec fn bits_valid(bits: u8) -> bool {
        bits < 3
    }

    /// Total decoding of a 2-bit pattern; the undefined pattern decodes to
    /// the highest selection.
    #[verifier::opaque]
    pub open spec fn from_bits_spec(bits: u8) -> LinkLoopMode {
        if bits == 0 {
            LinkLoopMode::Default
        } else if bits == 1 {
            LinkLoopMode::Linked
        } else {
            LinkLoopMode::Loop
        }
    }

    /// Total decoding of a 2-bit pattern.
    #[verifier::when_used_as_spec(from_bits_spec)]
    pub fn from_bits(bits: u8) -> (r: LinkLoopMode)
        ensures
            r == LinkLoopMode::from_bits_spec(bits),
    {
        proof { reveal(LinkLoopMode::from_bits_spec); }
        if bits == 0 {
            LinkLoopMode::Default
        } else if bits == 1 {
            LinkLoopMode::Linked
        } else {
            LinkLoopMode::Loop
        }
    }
}

/// Operating power modes encoded in `POWER_CTL[1:0]`.
#[derive(Debug, Clone, Copy, PartialEq, Eq, Structural)]
pub enum PowerMode {
    /// Standby mode.
    Standby,
    /// Wake-up mode.
    WakeUp,
    /// Instant-on mode.
    InstantOn,
    /// Full measurement mode.
    Measure,
}

impl PowerMode {
    /// Bit pattern for this selection.
    #[verifier::opaque]
    pub open spec fn bits_spec(self) -> u8 {
        match self {
            PowerMode::Standby => 0,
            PowerMode::WakeUp => 1,
            PowerMode::InstantOn => 2,
            PowerMode::Measure => 3,
        }
    }

    /// Bit pattern for this selection.
    #[verifier::when_used_as_spec(bits_spec)]
    pub fn bits(self) -> (r: u8)
        ensures
            r == self.bits_spec(),
    {
        proof { reveal(PowerMode::bits_spec); }
        match self {
            PowerMode::Standby => 0,
            PowerMode::WakeUp => 1,
            PowerMode::InstantOn => 2,
            PowerMode::Measure => 3,
        }
    }

    /// Total decoding of a 2-bit pattern; every pattern is defined.
    #[verifier::opaque]
    pub open spec fn from_bits_spec(bits: u8) -> PowerMode {
        if bits == 0 {
            PowerMode::Standby
        } else if bits == 1 {
            PowerMode::WakeUp
        } else if bits == 2 {
            PowerMode::InstantOn
        } else {
            PowerMode::Measure
        }
    }

    /// Total decoding of a 2-bit pattern.
    #[verifier::when_used_as_spec(from_bits_spec)]
    pub fn from_bits(bits: u8) -> (r: PowerMode)
        ensures
            r == PowerMode::from_bits_spec(bits),
    {
        proof { reveal(PowerMode::from_bits_spec); }
        if bits == 0 {
            PowerMode::Standby
        } else if bits == 1 {
            PowerMode::WakeUp
        } else if bits == 2 {
            PowerMode::InstantOn
        } else {
            PowerMode::Measure
        }
    }
}

/// High-pass filter corner selections encoded in `HPF[1:0]`.
#[derive(Debug, Clone, Copy, PartialEq, Eq, Structural)]
pub enum HighPassCorner {
    /// Corner selection 0.
    Corner0,
    /// Corner selection 1.
    Corner1,
    /// Corner selection 2.
    Corner2,
    /// Corner selection 3.
    Corner3,
}

impl HighPassCorner {
    /// Bit pattern for this selection.
    #[verifier::opaque]
    pub open spec fn bits_spec(self) -> u8 {
        match self {
            HighPassCorner::Corner0 => 0,
            HighPassCorner::Corner1 => 1,
            HighPassCorner::Corner2 => 2,
            HighPassCorner::Corner3 => 3,
        }
    }

    /// Bit pattern for this selection.
    #[verifier::when_used_as_spec(bits_spec)]
    pub fn bits(self) -> (r: u8)
        ensures
            r == self.bits_spec(),
    {
        proof { reveal(HighPassCorner::bits_spec); }
        match self {
            HighPassCorner::Corner0 => 0,
            HighPassCorner::Corner1 => 1,
            HighPassCorner::Corner2 => 2,
            HighPassCorner::Corner3 => 3,
        }
    }

    /// Total decoding of a 2-bit pattern; every pattern is defined.
    #[verifier::opaque]
    pub open spec fn from_bits_spec(bits: u8) -> HighPassCorner {
        if bits == 0 {
            HighPassCorner::Corner0
        } else if bits == 1 {
            HighPassCorner::Corner1
        } else if bits == 2 {
            HighPassCorner::Corner2
        } else {
            HighPassCorner::Corner3
        }
    }

    /// Total decoding of a 2-bit pattern.
    #[verifier::when_used_as_spec(from_bits_spec)]
    pub fn from_bits(bits: u8) -> (r: HighPassCorner)
        ensures
            r == HighPassCorner::from_bits_spec(bits),
    {
        proof { reveal(HighPassCorner::from_bits_spec); }
        if bits == 0 {
            HighPassCorner::Corner0
        } else if bits == 1 {
            HighPassCorner::Corner1
        } else if bits == 2 {
            HighPassCorner::Corner2
        } else {
            HighPassCorner::Corner3
        }
    }

    /// Whether the corner frequency is at most 10 Hz for the supplied ODR.
    ///
    /// Per the datasheet corner-frequency table, only the two fastest corner
    /// selections at the two highest data rates exceed 10 Hz, so the result
    /// is computed from the selection pair alone.
    pub open spec fn is_activity_lp_compatible_spec(self, odr: OutputDataRate) -> bool {
        match (odr, self) {
            (OutputDataRate::Od3200Hz, HighPassCorner::Corner0) => false,
            (OutputDataRate::Od6400Hz, HighPassCorner::Corner0) => false,
            (OutputDataRate::Od6400Hz, HighPassCorner::Corner1) => false,
            _ => true,
        }
    }

    /// Returns `true` when the corner frequency is at most 10 Hz for the
    /// supplied ODR.
    #[verifier::when_used_as_spec(is_activity_lp_compatible_spec)]
    pub fn is_activity_lp_compatible(self, odr: OutputDataRate) -> (r: bool)
        ensures
            r == self.is_activity_lp_compatible_spec(odr),
    {
        match (odr, self) {
            (OutputDataRate::Od3200Hz, HighPassCorner::Corner0) => false,
            (OutputDataRate::Od6400Hz, HighPassCorner::Corner0) => false,
            (OutputDataRate::Od6400Hz, HighPassCorner::Corner1) => false,
            _ => true,
        }
    }
}

} // verus!
