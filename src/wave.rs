use byte_slice_cast::AsSliceOf;
use vstd::prelude::*;

verus! {

/// The only sample rate that playback supports, in Hz.
pub const SAMPLE_RATE: u32 = 18157;

/// Size of the header that precedes the samples of a wave file.
pub const HEADER_LEN: usize = 44;

/// The ways in which wave audio can be unsuitable for playback.
#[derive(Clone, Copy, Debug, PartialEq, Eq, Structural)]
pub enum WaveError {
    /// The file could not be read.
    File,
    /// Only 8-bit PCM samples are supported.
    UnsupportedSampleType,
    /// Only one channel is supported.
    TooManyChannels,
    /// The file has this sample rate, which is not supported.
    UnsupportedSampleRate(u32),
    /// The sample data could not be viewed as signed bytes.
    Cast,
    /// The file is shorter than a wave header.
    Truncated,
}

#[verifier::external_type_specification]
#[verifier::external_body]
pub struct ExCastError(byte_slice_cast::Error);

/// Little-endian 16-bit value at `off`.
pub open spec fn le_u16(data: Seq<u8>, off: int) -> int {
    data[off] as int + 256 * data[off + 1] as int
}

/// Little-endian 32-bit value at `off`.
pub open spec fn le_u32(data: Seq<u8>, off: int) -> int {
    data[off] as int + 256 * data[off + 1] as int + 65536 * data[off + 2] as int + 16777216
        * data[off + 3] as int
}

/// The samples of a wave file, or why it cannot be played: it must be PCM (format 1), one
/// channel, `SAMPLE_RATE` Hz and 8 bits per sample; the samples follow the 44-byte header.
pub open spec fn wave_model(data: Seq<u8>) -> Result<Seq<i8>, WaveError> {
    if data.len() < HEADER_LEN {
        Err(WaveError::Truncated)
    } else if le_u16(data, 20) != 1 {
        Err(WaveError::UnsupportedSampleType)
    } else if le_u16(data, 22) != 1 {
        Err(WaveError::TooManyChannels)
    } else if le_u32(data, 24) != SAMPLE_RATE {
        Err(WaveError::UnsupportedSampleRate(le_u32(data, 24) as u32))
    } else if le_u16(data, 34) != 8 {
        Err(WaveError::UnsupportedSampleType)
    } else {
        Ok(data.subrange(HEADER_LEN as int, data.len() as int).map_values(|b: u8| b as i8))
    }
}

/// Relies on `byte_slice_cast::AsSliceOf::as_slice_of::<i8>`: each byte read as an `i8`. Its
/// alignment and length checks cannot fail for `i8`, whose size and alignment are 1.
#[verifier::external_body]
fn bytes_as_i8(bytes: &[u8]) -> (r: Result<Vec<i8>, byte_slice_cast::Error>)
    ensures
        r is Ok,
        r is Ok ==> r->Ok_0@ == bytes@.map_values(|b: u8| b as i8),
{
    match bytes.as_slice_of::<i8>() {
        Ok(samples) => Ok(samples.to_vec()),
        Err(e) => Err(e),
    }
}

/// Reads a little-endian 16-bit value.
fn read_u16(data: &[u8], off: usize) -> (r: u16)
    requires
        off + 2 <= data@.len(),
    ensures
        r as int == le_u16(data@, off as int),
{
    data[off] as u16 + 256 * (data[off + 1] as u16)
}

/// Reads a little-endian 32-bit value.
fn read_u32(data: &[u8], off: usize) -> (r: u32)
    requires
        off + 4 <= data@.len(),
    ensures
        r as int == le_u32(data@, off as int),
{
    data[off] as u32 + 256 * (data[off + 1] as u32) + 65536 * (data[off + 2] as u32) + 16777216
        * (data[off + 3] as u32)
}

/// Checks the header of a wave file's contents and returns its samples.
///
/// Only the few header fields that playback depends on are read, at their fixed offsets.
pub fn from_file(data: &[u8]) -> (r: Result<Vec<i8>, WaveError>)
    ensures
        match r {
            Ok(samples) => wave_model(data@) == Ok::<Seq<i8>, WaveError>(samples@),
            Err(e) => wave_model(data@) == Err::<Seq<i8>, WaveError>(e),
        },
{
    if data.len() < HEADER_LEN {
        return Err(WaveError::Truncated);
    }
    let format_type = read_u16(data, 20);
    if format_type != 1 {
        return Err(WaveError::UnsupportedSampleType);
    }
    let num_chans = read_u16(data, 22);
    if num_chans != 1 {
        return Err(WaveError::TooManyChannels);
    }
    let sample_rate = read_u32(data, 24);
    if sample_rate != SAMPLE_RATE {
        return Err(WaveError::UnsupportedSampleRate(sample_rate));
    }
    let bits_per_sample = read_u16(data, 34);
    if bits_per_sample != 8 {
        return Err(WaveError::UnsupportedSampleType);
    }
    let (_, samples) = data.split_at(HEADER_LEN);
    match bytes_as_i8(samples) {
        Ok(v) => Ok(v),
        Err(_) => Err(WaveError::Cast),
    }
}

} // verus!
