//! Analog-to-digital converter: configuration, the values that its register fields take, and
//! the type states of the driver.
use vstd::prelude::*;

pub mod config;

use self::config::SampleTime;

verus! {

/// The register that holds a channel's sample time.
#[derive(Clone, Copy, Debug, PartialEq, Eq)]
pub enum SampleTimeRegister {
    /// Channels 10 to 17.
    Sampt0,
    /// Channels 0 to 9.
    Sampt1,
}

/// Highest channel number: 16 is the temperature sensor, 17 the internal reference.
pub const MAX_CHANNEL: u8 = 17;

/// Where the three-bit sample time field of `channel` lies: SAMPT1 holds channels 0 to 9 and
/// SAMPT0 channels 10 to 17, each from bit 0 upward in channel order.
pub fn sample_time_slot(channel: u8) -> (r: (SampleTimeRegister, u32))
    requires
        channel <= MAX_CHANNEL,
    ensures
        channel < 10 ==> r.0 == SampleTimeRegister::Sampt1 && r.1 == 3 * channel,
        channel >= 10 ==> r.0 == SampleTimeRegister::Sampt0 && r.1 == 3 * (channel - 10),
        r.1 <= 27,
{
    if channel < 10 {
        (SampleTimeRegister::Sampt1, 3 * channel as u32)
    } else {
        (SampleTimeRegister::Sampt0, 3 * (channel as u32 - 10))
    }
}

/// `reg` with the three-bit field at `offset` set to `sample_time` and the other bits kept.
pub fn with_sample_time(reg: u32, offset: u32, sample_time: SampleTime) -> (r: u32)
    requires
        offset <= 29,
    ensures
        (r >> offset) & 7 == sample_time.value() as u32,
        r & !(7u32 << offset) == reg & !(7u32 << offset),
{
    let v = sample_time.bits() as u32;
    let r = (reg & !(7u32 << offset)) | (v << offset);
    assert((r >> offset) & 7 == v && r & !(7u32 << offset) == reg & !(7u32 << offset)) by (bit_vector)
        requires
            v < 8,
            offset <= 29,
            r == (reg & !(7u32 << offset)) | (v << offset),
    ;
    r
}

/// Enabled ADC (type state).
pub struct Enabled;

/// Disabled ADC (type state).
pub struct Disabled;

/// The type states of the ADC.
pub trait ED {

}

impl ED for Enabled {

}

impl ED for Disabled {

}

/// ADC sync mode.
#[derive(Clone, Copy, Debug, PartialEq, Eq)]
pub enum SyncMode {
    /// all the ADCs work independently
    Free,
    /// ADC0 and ADC1 work in combined regular parallel + inserted parallel mode
    DualRegulalParallelInsertedParallel,
    /// ADC0 and ADC1 work in combined regular parallel + trigger rotation mode
    DualRegulalParallelInsertedRotation,
    /// ADC0 and ADC1 work in combined inserted parallel + follow-up fast mode
    DualInsertedParallelRegulalFollowupFast,
    /// ADC0 and ADC1 work in combined inserted parallel + follow-up slow mode
    DualInsertedParallelRegulalFollowupSlow,
    /// ADC0 and ADC1 work in inserted parallel mode only
    DualInsertedParallel,
    /// ADC0 and ADC1 work in regular parallel mode only
    DualRegulalParallel,
    /// ADC0 and ADC1 work in follow-up fast mode only
    DualRegulalFollowupFast,
    /// ADC0 and ADC1 work in follow-up slow mode only
    DualRegulalFollowupSlow,
    /// ADC0 and ADC1 work in trigger rotation mode only
    DualInsertedTriggerRotation,
}

impl SyncMode {
    /// The value of the SYNCM field: the modes in the order above, from 0.
    pub open spec fn value(self) -> u8 {
        match self {
            SyncMode::Free => 0,
            SyncMode::DualRegulalParallelInsertedParallel => 1,
            SyncMode::DualRegulalParallelInsertedRotation => 2,
            SyncMode::DualInsertedParallelRegulalFollowupFast => 3,
            SyncMode::DualInsertedParallelRegulalFollowupSlow => 4,
            SyncMode::DualInsertedParallel => 5,
            SyncMode::DualRegulalParallel => 6,
            SyncMode::DualRegulalFollowupFast => 7,
            SyncMode::DualRegulalFollowupSlow => 8,
            SyncMode::DualInsertedTriggerRotation => 9,
        }
    }

    pub fn bits(self) -> (r: u8)
        ensures
            r == self.value(),
    {
        match self {
            SyncMode::Free => 0,
            SyncMode::DualRegulalParallelInsertedParallel => 1,
            SyncMode::DualRegulalParallelInsertedRotation => 2,
            SyncMode::DualInsertedParallelRegulalFollowupFast => 3,
            SyncMode::DualInsertedParallelRegulalFollowupSlow => 4,
            SyncMode::DualInsertedParallel => 5,
            SyncMode::DualRegulalParallel => 6,
            SyncMode::DualRegulalFollowupFast => 7,
            SyncMode::DualRegulalFollowupSlow => 8,
            SyncMode::DualInsertedTriggerRotation => 9,
        }
    }
}

} // verus!
