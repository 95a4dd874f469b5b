use vstd::prelude::*;

verus! {

/// The single-bit mask that selects channel `n` in a sequence's channel set.
pub fn bit(n: u32) -> (r: u32)
    requires
        n < 32,
    ensures
        r == 1u32 << n,
{
    1u32 << n
}

/// Errors of the acquisition engine.
#[derive(Clone, Copy, Debug, PartialEq, Eq, Structural)]
pub enum AdcError {
    /// A channel could not be bound or configured at startup.
    ConfigurationError,
    /// The peripheral rejected a conversion request.
    SubmissionError,
    /// A channel index at or past the channel count.
    OutOfRange,
    /// The interrupt side found its channel index past the sample storage.
    /// A well-formed engine never reaches that state; the interrupt side
    /// answers it by finishing the sequence.
    ProtocolViolation,
}

/// What the engine needs to know of one configured analog input.
#[derive(Clone, Copy, Debug, PartialEq, Eq, Structural)]
pub struct ChannelSpec {
    /// Hardware channel identifier (0..32).
    pub channel_id: u8,
    /// Resolution of a conversion, in bits.
    pub resolution: u8,
    /// Whether the input is sampled in differential mode.
    pub differential: bool,
}

impl ChannelSpec {
    /// A channel identifier that fits the peripheral's 32-bit channel mask.
    pub open spec fn wf(self) -> bool {
        self.channel_id < 32
    }
}

/// One conversion request for the peripheral: which channel to sample and how.
#[derive(Clone, Copy, Debug, PartialEq, Eq, Structural)]
pub struct SequenceRequest {
    /// Position of the sampled channel in the channel table.
    pub channel_index: usize,
    /// Bit mask of the hardware channel to sample.
    pub channels: u32,
    /// Resolution of the conversion, in bits.
    pub resolution: u8,
    /// Sampling interval in microseconds; zero asks for a one-shot conversion.
    pub interval_us: u32,
    /// Extra samplings per conversion; always none here.
    pub extra_samplings: u16,
    /// Oversampling of the sequence; configured on the channel instead.
    pub oversampling: u8,
    /// Whether the peripheral calibrates before converting.
    pub calibrate: bool,
}

/// The request that samples `spec`, found at `index` of the table, every
/// `interval_us` microseconds.
pub open spec fn request_for(spec: ChannelSpec, index: usize, interval_us: u32) -> SequenceRequest {
    SequenceRequest {
        channel_index: index,
        channels: 1u32 << (spec.channel_id as u32),
        resolution: spec.resolution,
        interval_us,
        extra_samplings: 0,
        oversampling: 0,
        calibrate: false,
    }
}

/// Builds the request that samples `spec` at position `index` of the table.
pub fn sequence_for(spec: ChannelSpec, index: usize, interval_us: u32) -> (r: SequenceRequest)
    requires
        spec.wf(),
    ensures
        r == request_for(spec, index, interval_us),
{
    SequenceRequest {
        channel_index: index,
        channels: bit(spec.channel_id as u32),
        resolution: spec.resolution,
        interval_us,
        extra_samplings: 0,
        oversampling: 0,
        calibrate: false,
    }
}

/// Checks a channel table and the status that configuring each of its
/// channels reported (negative is a failure).
pub fn init_channels(channels: &Vec<ChannelSpec>, setup_status: &Vec<i32>) -> (r: Result<(), AdcError>)
    ensures
        r is Ok <==> table_usable(channels@, setup_status@),
        r is Err ==> r == Err::<(), AdcError>(AdcError::ConfigurationError),
{
    if channels.len() == 0 || channels.len() != setup_status.len() {
        return Err(AdcError::ConfigurationError);
    }
    let mut i: usize = 0;
    while i < channels.len()
        invariant
            channels@.len() == setup_status@.len(),
            0 <= i <= channels@.len(),
            forall|j: int| 0 <= j < i ==> entry_ok(#[trigger] channels@[j], setup_status@[j]),
        decreases channels@.len() - i,
    {
        if channels[i].channel_id >= 32 || setup_status[i] < 0 {
            assert(!entry_ok(channels@[i as int], setup_status@[i as int]));
            return Err(AdcError::ConfigurationError);
        }
        assert(entry_ok(channels@[i as int], setup_status@[i as int]));
        i = i + 1;
    }
    Ok(())
}

/// A channel that fits the mask and whose configuration reported no error.
pub open spec fn entry_ok(spec: ChannelSpec, status: i32) -> bool {
    spec.wf() && status >= 0
}

/// A table with at least one channel, every channel addressable, and every
/// channel configured without error.
pub open spec fn table_usable(channels: Seq<ChannelSpec>, setup_status: Seq<i32>) -> bool {
    &&& channels.len() >= 1
    &&& channels.len() == setup_status.len()
    &&& forall|j: int| 0 <= j < channels.len() ==> entry_ok(#[trigger] channels[j], setup_status[j])
}

} // verus!
