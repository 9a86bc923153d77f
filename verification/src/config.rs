//! Configuration primitives for the ADXL372 driver.
//!
//! [`Config`] is the cached, user-facing view of the three writable control
//! registers (timing, measurement, power control). Its single cross-field
//! invariant is the Nyquist relationship: twice the configured analog
//! bandwidth must not exceed the output data rate. [`Config::validate`]
//! checks exactly that relationship and nothing else.

use vstd::prelude::*;

use crate::params::Bandwidth;
use crate::params::ExtClk;
use crate::params::ExtSync;
use crate::params::InstantOnThreshold;
use crate::params::LinkLoopMode;
use crate::params::LowNoise;
use crate::params::OutputDataRate;
use crate::params::PowerMode;
use crate::params::SettleFilter;
use crate::params::WakeUpRate;
use crate::registers::Measure;
use crate::registers::PowerControl;
use crate::registers::Timing;

verus! {

/// User-facing configuration for the ADXL372 sensor.
///
/// The fields cover every bit the driver owns in the `TIMING`, `MEASURE`
/// and `POWER_CTL` registers.
#[derive(Debug, Clone, Copy, PartialEq, Eq, Structural)]
pub struct Config {
    /// Output data rate selection.
    pub odr: OutputDataRate,
    /// Analog bandwidth selection.
    pub bandwidth: Bandwidth,
    /// Wake-up timer period selection.
    pub wake_up_rate: WakeUpRate,
    /// External clock enable.
    pub ext_clk: ExtClk,
    /// External sync enable.
    pub ext_sync: ExtSync,
    /// Noise mode selection.
    pub low_noise: LowNoise,
    /// Link/loop mode selection.
    pub link_loop_mode: LinkLoopMode,
    /// Autosleep enable flag.
    pub autosleep: bool,
    /// User-overrange-disable flag.
    pub user_or_disable: bool,
    /// Power mode selection.
    pub power_mode: PowerMode,
    /// High-pass filter disable flag.
    pub hpf_disable: bool,
    /// Low-pass filter disable flag.
    pub lpf_disable: bool,
    /// Filter settle selection.
    pub filter_settle: SettleFilter,
    /// Instant-on threshold selection.
    pub instant_on_threshold: InstantOnThreshold,
    /// I2C high-speed enable flag.
    pub i2c_high_speed_enable: bool,
}

impl Config {
    /// Creates a new configuration using the provided parameters; every
    /// other field starts at its power-on default.
    pub fn new(odr: OutputDataRate, bandwidth: Bandwidth) -> (r: Self)
        ensures
            r == (Config { odr, bandwidth, ..Config::power_on_defaults() }),
    {
        Config { odr, bandwidth, ..Config::defaults() }
    }

    /// The configuration that matches the device's power-on register
    /// contents, except that ODR and bandwidth start at their highest
    /// selections.
    pub open spec fn power_on_defaults() -> Config {
        Config {
            odr: OutputDataRate::Od6400Hz,
            bandwidth: Bandwidth::Bw1600Hz,
            wake_up_rate: WakeUpRate::Ms52,
            ext_clk: ExtClk::Disabled,
            ext_sync: ExtSync::Disabled,
            low_noise: LowNoise::Normal,
            link_loop_mode: LinkLoopMode::Default,
            autosleep: false,
            user_or_disable: false,
            power_mode: PowerMode::Standby,
            hpf_disable: false,
            lpf_disable: false,
            filter_settle: SettleFilter::Ms370,
            instant_on_threshold: InstantOnThreshold::Low,
            i2c_high_speed_enable: false,
        }
    }

    /// The configuration that matches the device's power-on register
    /// contents, except that ODR and bandwidth start at their highest
    /// selections.
    fn defaults() -> (r: Config)
        ensures
            r == Config::power_on_defaults(),
    {
        Config {
            odr: OutputDataRate::Od6400Hz,
            bandwidth: Bandwidth::Bw1600Hz,
            wake_up_rate: WakeUpRate::Ms52,
            ext_clk: ExtClk::Disabled,
            ext_sync: ExtSync::Disabled,
            low_noise: LowNoise::Normal,
            link_loop_mode: LinkLoopMode::Default,
            autosleep: false,
            user_or_disable: false,
            power_mode: PowerMode::Standby,
            hpf_disable: false,
            lpf_disable: false,
            filter_settle: SettleFilter::Ms370,
            instant_on_threshold: InstantOnThreshold::Low,
            i2c_high_speed_enable: false,
        }
    }

    /// The Nyquist relationship holds: twice the analog bandwidth does not
    /// exceed the output data rate. Only these two fields take part.
    pub open spec fn nyquist_ok(self) -> bool {
        self.bandwidth.max_hz_spec() * 2 <= self.odr.hz_spec()
    }

    /// Checks whether this configuration is valid according to datasheet
    /// rules: it is rejected exactly when twice the bandwidth exceeds the
    /// ODR, independent of all other fields.
    pub fn validate(&self) -> (r: Result<(), ConfigError>)
        ensures
            r is Ok <==> self.nyquist_ok(),
            !self.nyquist_ok() ==> r == Result::<(), ConfigError>::Err(
                ConfigError::NyquistViolation,
            ),
    {
        if self.bandwidth.max_hz() * 2 > self.odr.hz() {
            return Err(ConfigError::NyquistViolation);
        }
        Ok(())
    }

    /// The timing-register fields of this configuration, as a register view.
    pub open spec fn timing_view(self) -> Timing {
        Timing {
            ext_sync: self.ext_sync,
            ext_clk: self.ext_clk,
            wake_up_rate: self.wake_up_rate,
            odr: self.odr,
        }
    }

    /// The measurement-register fields of this configuration, as a register
    /// view.
    pub open spec fn measure_view(self) -> Measure {
        Measure {
            bandwidth: self.bandwidth,
            low_noise: self.low_noise,
            link_loop_mode: self.link_loop_mode,
            autosleep: self.autosleep,
            user_or_disable: self.user_or_disable,
        }
    }

    /// The power-control fields of this configuration, as a register view;
    /// the reserved bit is supplied by the caller (it is preserved from the
    /// byte read back from the device).
    pub open spec fn power_view(self, reserved: bool) -> PowerControl {
        PowerControl {
            mode: self.power_mode,
            hpf_disable: self.hpf_disable,
            lpf_disable: self.lpf_disable,
            filter_settle: self.filter_settle,
            instant_on_threshold: self.instant_on_threshold,
            reserved,
            i2c_high_speed_enable: self.i2c_high_speed_enable,
        }
    }

    /// This configuration with the timing-register fields replaced from a
    /// register view.
    pub open spec fn with_timing(self, t: Timing) -> Config {
        Config {
            odr: t.odr,
            wake_up_rate: t.wake_up_rate,
            ext_clk: t.ext_clk,
            ext_sync: t.ext_sync,
            ..self
        }
    }

    /// This configuration with the measurement-register fields replaced
    /// from a register view.
    pub open spec fn with_measure(self, m: Measure) -> Config {
        Config {
            bandwidth: m.bandwidth,
            low_noise: m.low_noise,
            link_loop_mode: m.link_loop_mode,
            autosleep: m.autosleep,
            user_or_disable: m.user_or_disable,
            ..self
        }
    }

    /// This configuration with the power-control fields replaced from a
    /// register view. The register's reserved bit has no cached field.
    pub open spec fn with_power(self, p: PowerControl) -> Config {
        Config {
            power_mode: p.mode,
            hpf_disable: p.hpf_disable,
            lpf_disable: p.lpf_disable,
            filter_settle: p.filter_settle,
            instant_on_threshold: p.instant_on_threshold,
            i2c_high_speed_enable: p.i2c_high_speed_enable,
            ..self
        }
    }
}

impl Default for Config {
    /// The default configuration: highest data rate and bandwidth, every
    /// other field at its power-on value.
    fn default() -> (r: Self)
        ensures
            r == Config::power_on_defaults(),
    {
        Config::defaults()
    }
}

/// Validation errors generated while verifying a [`Config`].
#[derive(Debug, Clone, Copy, PartialEq, Eq, Structural)]
pub enum ConfigError {
    /// Requested bandwidth violates Nyquist sampling limits for the chosen
    /// ODR.
    NyquistViolation,
}

} // verus!
