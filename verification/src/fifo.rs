//! FIFO decoding utilities.

use vstd::prelude::*;

use crate::interface::Adxl372Interface;
use crate::interface::BusOp;
use crate::params::FifoFormat;
use crate::params::FifoMode;
use crate::registers::REG_FIFO_DATA;

verus! {

/// A decoded FIFO sample.
#[derive(Debug, Clone, Copy, PartialEq, Eq, Structural)]
pub struct Sample {
    /// X-axis reading, if enabled.
    pub x: Option<i16>,
    /// Y-axis reading, if enabled.
    pub y: Option<i16>,
    /// Z-axis reading, if enabled.
    pub z: Option<i16>,
    /// Indicates whether this sample corresponds to a peak event.
    pub is_peak: bool,
}

impl Default for Sample {
    /// A sample with no axis readings.
    fn default() -> (r: Self)
        ensures
            r == (Sample { x: None, y: None, z: None, is_peak: false }),
    {
        Sample { x: None, y: None, z: None, is_peak: false }
    }
}

/// Snapshot of the FIFO control configuration.
#[derive(Debug, Clone, Copy, PartialEq, Eq, Structural)]
pub struct FifoSettings {
    /// FIFO watermark level expressed in samples.
    pub watermark: u16,
    /// FIFO operating mode.
    pub mode: FifoMode,
    /// FIFO packing format.
    pub format: FifoFormat,
}

impl FifoSettings {
    /// Creates a new settings snapshot.
    pub fn new(watermark: u16, mode: FifoMode, format: FifoFormat) -> (r: Self)
        ensures
            r == (FifoSettings { watermark, mode, format }),
    {
        FifoSettings { watermark, mode, format }
    }
}

/// The 16-bit big-endian two's-complement value carried by a byte pair.
pub open spec fn i16_be_val(hi: u8, lo: u8) -> int {
    let v = hi as int * 256 + lo as int;
    if v < 32768 {
        v
    } else {
        v - 65536
    }
}

/// Recovers a signed 16-bit value from a big-endian byte pair.
pub fn i16_from_be(hi: u8, lo: u8) -> (r: i16)
    ensures
        r as int == i16_be_val(hi, lo),
{
    let v: u32 = (hi as u32) * 256 + (lo as u32);
    if v < 32768 {
        v as i16
    } else {
        ((v - 32768) as i16) - 32767 - 1
    }
}

/// Reads raw FIFO bytes into the caller-provided buffer, filling it
/// completely; an empty buffer needs no bus traffic.
pub fn read_fifo_raw<IFACE: Adxl372Interface>(interface: &mut IFACE, buf: &mut Vec<u8>) -> (r:
    Result<usize, IFACE::Error>)
    ensures
        final(buf)@.len() == old(buf)@.len(),
        old(buf)@.len() == 0 ==> r is Ok,
        r matches Ok(n) ==> n == old(buf)@.len(),
        r matches Ok(n) ==> (if n == 0 {
            final(interface).history() == old(interface).history()
        } else {
            final(interface).history() == old(interface).history().push(
                BusOp::ReadBurst { addr: REG_FIFO_DATA, values: final(buf)@ },
            )
        }),
        r is Err ==> final(interface).history() == old(interface).history(),
{
    if buf.len() == 0 {
        return Ok(0);
    }
    let n = buf.len();
    match interface.read_many(REG_FIFO_DATA, buf) {
        Ok(()) => Ok(n),
        Err(e) => Err(e),
    }
}

/// Decodes FIFO samples into the provided vector, overwriting every slot
/// with a fresh three-axis sample assembled from one six-byte burst each.
pub fn read_fifo_samples<IFACE: Adxl372Interface>(
    interface: &mut IFACE,
    samples: &mut Vec<Sample>,
) -> (r: Result<usize, IFACE::Error>)
    ensures
        final(samples)@.len() == old(samples)@.len(),
        r matches Ok(n) ==> ({
            let h0 = old(interface).history();
            let h1 = final(interface).history();
            &&& n == old(samples)@.len()
            &&& h1.len() == h0.len() + n
            &&& h1.take(h0.len() as int) == h0
            &&& forall|i: int|
                0 <= i < n as int ==> (#[trigger] h1[h0.len() + i] matches BusOp::ReadBurst {
                    addr,
                    values,
                } && addr == REG_FIFO_DATA && values.len() == 6 && final(samples)@[i] == (Sample {
                    x: Some((i16_be_val(values[0], values[1])) as i16),
                    y: Some((i16_be_val(values[2], values[3])) as i16),
                    z: Some((i16_be_val(values[4], values[5])) as i16),
                    is_peak: false,
                }))
        }),
        r is Err ==> ({
            let h0 = old(interface).history();
            let h1 = final(interface).history();
            let k = h1.len() - h0.len();
            &&& final(samples)@.len() == old(samples)@.len()
            &&& h1.take(h0.len() as int) == h0
            &&& 0 <= k <= old(samples)@.len()
            &&& final(samples)@.skip(k) == old(samples)@.skip(k)
        }),
{
    let ghost h0 = interface.history();
    let total = samples.len();
    let mut count: usize = 0;
    while count < total
        invariant
            h0 == old(interface).history(),
            count <= total,
            total == old(samples)@.len(),
            samples@.len() == total,
            interface.history().len() == h0.len() + count,
            interface.history().take(h0.len() as int) == h0,
            samples@.skip(count as int) == old(samples)@.skip(count as int),
            forall|i: int|
                0 <= i < count as int ==> (#[trigger] interface.history()[h0.len() + i]
                    matches BusOp::ReadBurst { addr, values } && addr == REG_FIFO_DATA
                    && values.len() == 6 && samples@[i] == (Sample {
                    x: Some((i16_be_val(values[0], values[1])) as i16),
                    y: Some((i16_be_val(values[2], values[3])) as i16),
                    z: Some((i16_be_val(values[4], values[5])) as i16),
                    is_peak: false,
                })),
        decreases total - count,
    {
        let ghost h_pre = interface.history();
        let mut raw: Vec<u8> = Vec::new();
        let mut k: usize = 0;
        while k < 6
            invariant
                k <= 6,
                raw@.len() == k,
            decreases 6 - k,
        {
            raw.push(0);
            k = k + 1;
        }
        match interface.read_many(REG_FIFO_DATA, &mut raw) {
            Ok(()) => {},
            Err(e) => {
                return Err(e);
            },
        }
        let ghost pre_write = samples@;
        let x = i16_from_be(raw[0], raw[1]);
        let y = i16_from_be(raw[2], raw[3]);
        let z = i16_from_be(raw[4], raw[5]);
        let sample = Sample { x: Some(x), y: Some(y), z: Some(z), is_peak: false };
        samples[count] = sample;
        proof {
            let hcur = interface.history();
            assert(hcur.take(h_pre.len() as int) =~= h_pre);
            crate::interface::lemma_take_prefix_trans(h0, h_pre, hcur);
            assert(hcur[h0.len() + count as int] == hcur.last());
            assert forall|j: int|
                0 <= j < total - (count + 1) implies #[trigger] samples@.skip(count as int + 1)[j]
                    == old(samples)@.skip(count as int + 1)[j] by {
                let i = j + count + 1;
                assert(samples@[i] == pre_write[i]);
                assert(pre_write.skip(count as int)[i - count] == pre_write[i]);
                assert(old(samples)@.skip(count as int)[i - count] == old(samples)@[i]);
            }
            assert(samples@.skip(count as int + 1) =~= old(samples)@.skip(count as int + 1));
        }
        count = count + 1;
    }
    Ok(count)
}

} // verus!
