//! Configuration of the ADC.
#![allow(non_camel_case_types)]
use vstd::prelude::*;

verus! {

/// Sampling time of a channel, in ADC clock cycles.
#[derive(Clone, Copy, Debug, PartialEq, Eq)]
pub enum SampleTime {
    Point_1_5,
    Point_7_5,
    Point_13_5,
    Point_28_5,
    Point_41_5,
    Point_55_5,
    Point_71_5,
    Point_239_5,
}

impl SampleTime {
    /// The value of a sample time field: the times in the order above, from 0.
    pub open spec fn value(self) -> u8 {
        match self {
            SampleTime::Point_1_5 => 0,
            SampleTime::Point_7_5 => 1,
            SampleTime::Point_13_5 => 2,
            SampleTime::Point_28_5 => 3,
            SampleTime::Point_41_5 => 4,
            SampleTime::Point_55_5 => 5,
            SampleTime::Point_71_5 => 6,
            SampleTime::Point_239_5 => 7,
        }
    }

    pub fn bits(self) -> (r: u8)
        ensures
            r == self.value(),
    {
        match self {
            SampleTime::Point_1_5 => 0,
            SampleTime::Point_7_5 => 1,
            SampleTime::Point_13_5 => 2,
            SampleTime::Point_28_5 => 3,
            SampleTime::Point_41_5 => 4,
            SampleTime::Point_55_5 => 5,
            SampleTime::Point_71_5 => 6,
            SampleTime::Point_239_5 => 7,
        }
    }
}

impl Default for SampleTime {
    fn default() -> (r: Self)
        ensures
            r == SampleTime::Point_55_5,
    {
        SampleTime::Point_55_5
    }
}

/// Clock config for the ADC.
/// Check the datasheet for the maximum speed the ADC supports.
#[derive(Clone, Copy, Debug, PartialEq, Eq)]
pub enum Clock {
    /// ADC prescaler select CK_APB2/2
    Apb2_div_2,
    /// ADC prescaler select CK_APB2/4
    Apb2_div_4,
    /// ADC prescaler select CK_APB2/6
    Apb2_div_6,
    /// ADC prescaler select CK_APB2/8
    Apb2_div_8,
    /// ADC prescaler select CK_APB2/12
    Apb2_div_12,
    /// ADC prescaler select CK_APB2/16
    Apb2_div_16,
}

impl Clock {
    /// The three-bit value of ADCPSC that selects this clock.
    pub open spec fn value(self) -> u8 {
        match self {
            Clock::Apb2_div_2 => 0,
            Clock::Apb2_div_4 => 1,
            Clock::Apb2_div_6 => 2,
            Clock::Apb2_div_8 => 3,
            Clock::Apb2_div_12 => 5,
            Clock::Apb2_div_16 => 7,
        }
    }

    pub fn bits(self) -> (r: u8)
        ensures
            r == self.value(),
    {
        match self {
            Clock::Apb2_div_2 => 0,
            Clock::Apb2_div_4 => 1,
            Clock::Apb2_div_6 => 2,
            Clock::Apb2_div_8 => 3,
            Clock::Apb2_div_12 => 5,
            Clock::Apb2_div_16 => 7,
        }
    }

    /// ADCPSC as RCU_CFG0 holds it, in two fields: its low two bits (ADCPSC[1:0]) and its
    /// bit 2 (ADCPSC[2]).
    pub fn prescaler(self) -> (r: (u8, bool))
        ensures
            r.0 < 4,
            r.0 + (if r.1 {
                4int
            } else {
                0
            }) == self.value(),
    {
        let v = self.bits();
        (v % 4, v / 4 == 1)
    }
}

/// Resolution to sample at.
#[derive(Clone, Copy, Debug, PartialEq, Eq)]
pub enum Resolution {
    /// 12-bit ADC resolution
    Twelve,
    /// 10-bit ADC resolution
    Ten,
    /// 8-bit ADC resolution
    Eight,
    /// 6-bit ADC resolution
    Six,
}

impl Resolution {
    /// The value of the DRES field.
    pub open spec fn value(self) -> u8 {
        match self {
            Resolution::Twelve => 0,
            Resolution::Ten => 1,
            Resolution::Eight => 2,
            Resolution::Six => 3,
        }
    }

    pub fn bits(self) -> (r: u8)
        ensures
            r == self.value(),
    {
        match self {
            Resolution::Twelve => 0,
            Resolution::Ten => 1,
            Resolution::Eight => 2,
            Resolution::Six => 3,
        }
    }
}

/// Regular group trigger source.
#[derive(Clone, Copy, Debug, PartialEq, Eq)]
pub enum RegularExternalTrigger {
    Timer0_Ch0,
    Timer0_Ch1,
    Timer0_Ch2,
    Timer1_Ch1,
    Timer2_Trgo,
    Timer3_Ch3,
    Exti11,
    /// Software trigger (SWRCST / SWICST)
    Software,
}

impl RegularExternalTrigger {
    /// The value of the ETSRC field: the sources in the order above, from 0.
    pub open spec fn value(self) -> u8 {
        match self {
            RegularExternalTrigger::Timer0_Ch0 => 0,
            RegularExternalTrigger::Timer0_Ch1 => 1,
            RegularExternalTrigger::Timer0_Ch2 => 2,
            RegularExternalTrigger::Timer1_Ch1 => 3,
            RegularExternalTrigger::Timer2_Trgo => 4,
            RegularExternalTrigger::Timer3_Ch3 => 5,
            RegularExternalTrigger::Exti11 => 6,
            RegularExternalTrigger::Software => 7,
        }
    }

    pub fn bits(self) -> (r: u8)
        ensures
            r == self.value(),
    {
        match self {
            RegularExternalTrigger::Timer0_Ch0 => 0,
            RegularExternalTrigger::Timer0_Ch1 => 1,
            RegularExternalTrigger::Timer0_Ch2 => 2,
            RegularExternalTrigger::Timer1_Ch1 => 3,
            RegularExternalTrigger::Timer2_Trgo => 4,
            RegularExternalTrigger::Timer3_Ch3 => 5,
            RegularExternalTrigger::Exti11 => 6,
            RegularExternalTrigger::Software => 7,
        }
    }
}

/// Inserted group trigger source.
#[derive(Clone, Copy, Debug, PartialEq, Eq)]
pub enum InsertedExternalTrigger {
    Timer2_Trgo,
    Timer0_Ch3,
    Timer1_Trgo,
    Timer1_Ch0,
    Timer2_Ch3,
    Timer3_Trgo,
    Exti15,
    /// Software trigger (SWRCST / SWICST)
    Software,
}

impl InsertedExternalTrigger {
    /// The value of the ETSIC field: the sources in the order above, from 0.
    pub open spec fn value(self) -> u8 {
        match self {
            InsertedExternalTrigger::Timer2_Trgo => 0,
            InsertedExternalTrigger::Timer0_Ch3 => 1,
            InsertedExternalTrigger::Timer1_Trgo => 2,
            InsertedExternalTrigger::Timer1_Ch0 => 3,
            InsertedExternalTrigger::Timer2_Ch3 => 4,
            InsertedExternalTrigger::Timer3_Trgo => 5,
            InsertedExternalTrigger::Exti15 => 6,
            InsertedExternalTrigger::Software => 7,
        }
    }

    pub fn bits(self) -> (r: u8)
        ensures
            r == self.value(),
    {
        match self {
            InsertedExternalTrigger::Timer2_Trgo => 0,
            InsertedExternalTrigger::Timer0_Ch3 => 1,
            InsertedExternalTrigger::Timer1_Trgo => 2,
            InsertedExternalTrigger::Timer1_Ch0 => 3,
            InsertedExternalTrigger::Timer2_Ch3 => 4,
            InsertedExternalTrigger::Timer3_Trgo => 5,
            InsertedExternalTrigger::Exti15 => 6,
            InsertedExternalTrigger::Software => 7,
        }
    }
}

/// ADC data alignment.
#[derive(Clone, Copy, Debug, PartialEq, Eq)]
pub enum Align {
    /// LSB alignment
    Right,
    /// MSB alignment
    Left,
}

impl From<Align> for bool {
    fn from(a: Align) -> (r: bool)
        ensures
            r == (a == Align::Left),
    {
        match a {
            Align::Right => false,
            Align::Left => true,
        }
    }
}

impl vstd::std_specs::convert::FromSpecImpl<Align> for bool {
    open spec fn obeys_from_spec() -> bool {
        true
    }

    open spec fn from_spec(a: Align) -> bool {
        a == Align::Left
    }
}

/// Scan enable/disable.
#[derive(Clone, Copy, Debug, PartialEq, Eq)]
pub enum Scan {
    /// Scan mode disabled
    Disabled,
    /// Scan mode enabled
    Enabled,
}

impl From<Scan> for bool {
    fn from(s: Scan) -> (r: bool)
        ensures
            r == (s == Scan::Enabled),
    {
        match s {
            Scan::Disabled => false,
            Scan::Enabled => true,
        }
    }
}

impl vstd::std_specs::convert::FromSpecImpl<Scan> for bool {
    open spec fn obeys_from_spec() -> bool {
        true
    }

    open spec fn from_spec(s: Scan) -> bool {
        s == Scan::Enabled
    }
}

/// Continuous mode enable/disable.
#[derive(Clone, Copy, Debug, PartialEq, Eq)]
pub enum Continuous {
    /// Single mode, continuous disabled
    Single,
    /// Continuous mode enabled
    Continuous,
}

impl From<Continuous> for bool {
    fn from(c: Continuous) -> (r: bool)
        ensures
            r == (c == Continuous::Continuous),
    {
        match c {
            Continuous::Single => false,
            Continuous::Continuous => true,
        }
    }
}

impl vstd::std_specs::convert::FromSpecImpl<Continuous> for bool {
    open spec fn obeys_from_spec() -> bool {
        true
    }

    open spec fn from_spec(c: Continuous) -> bool {
        c == Continuous::Continuous
    }
}

/// Configuration of the regular channel group.
#[derive(Clone, Copy, Debug, PartialEq, Eq)]
pub struct RegularChannelGroupConfig {
    pub external_trigger: RegularExternalTrigger,
}

impl RegularChannelGroupConfig {
    /// change the external_trigger field
    pub fn external_trigger(self, external_trigger: RegularExternalTrigger) -> (r: Self)
        ensures
            r == (RegularChannelGroupConfig { external_trigger }),
    {
        let mut c = self;
        c.external_trigger = external_trigger;
        c
    }
}

impl Default for RegularChannelGroupConfig {
    fn default() -> (r: Self)
        ensures
            r == (RegularChannelGroupConfig { external_trigger: RegularExternalTrigger::Software }),
    {
        RegularChannelGroupConfig { external_trigger: RegularExternalTrigger::Software }
    }
}

/// Inserted channel management.
#[derive(Clone, Copy, Debug, PartialEq, Eq)]
pub enum Insertion {
    /// Disabled
    Triggered,
    /// Inserted channel group convert automatically
    Auto,
}

impl From<Insertion> for bool {
    fn from(c: Insertion) -> (r: bool)
        ensures
            r == (c == Insertion::Auto),
    {
        match c {
            Insertion::Triggered => false,
            Insertion::Auto => true,
        }
    }
}

impl vstd::std_specs::convert::FromSpecImpl<Insertion> for bool {
    open spec fn obeys_from_spec() -> bool {
        true
    }

    open spec fn from_spec(c: Insertion) -> bool {
        c == Insertion::Auto
    }
}

/// Configuration of the inserted channel group.
#[derive(Clone, Copy, Debug, PartialEq, Eq)]
pub struct InsertedChannelGroupConfig {
    pub external_trigger: InsertedExternalTrigger,
    pub insertion: Insertion,
}

impl InsertedChannelGroupConfig {
    /// change the external_trigger field
    pub fn external_trigger(self, external_trigger: InsertedExternalTrigger) -> (r: Self)
        ensures
            r == (InsertedChannelGroupConfig { external_trigger, ..self }),
    {
        let mut c = self;
        c.external_trigger = external_trigger;
        c
    }

    /// change the insertion field
    pub fn insertion(self, insertion: Insertion) -> (r: Self)
        ensures
            r == (InsertedChannelGroupConfig { insertion, ..self }),
    {
        let mut c = self;
        c.insertion = insertion;
        c
    }
}

impl Default for InsertedChannelGroupConfig {
    fn default() -> (r: Self)
        ensures
            r == (InsertedChannelGroupConfig {
                external_trigger: InsertedExternalTrigger::Software,
                insertion: Insertion::Triggered,
            }),
    {
        InsertedChannelGroupConfig {
            external_trigger: InsertedExternalTrigger::Software,
            insertion: Insertion::Triggered,
        }
    }
}

/// Configuration for the adc.
/// There are some additional parameters on the adc peripheral that can be
/// added here when needed but this covers several basic usecases.
#[derive(Clone, Copy, Debug, PartialEq, Eq)]
pub struct AdcConfig {
    pub clock: Clock,
    pub resolution: Resolution,
    pub align: Align,
    pub scan: Scan,
    pub continuous: Continuous,
    /// The regular group's configuration, where that group is in use.
    pub regular_channel: Option<RegularChannelGroupConfig>,
    /// The inserted group's configuration, where that group is in use.
    pub inserted_channel: Option<InsertedChannelGroupConfig>,
    pub default_sample_time: SampleTime,
}

impl AdcConfig {
    /// change the clock field
    pub fn clock(self, clock: Clock) -> (r: Self)
        ensures
            r == (AdcConfig { clock, ..self }),
    {
        let mut c = self;
        c.clock = clock;
        c
    }

    /// change the resolution field
    pub fn resolution(self, resolution: Resolution) -> (r: Self)
        ensures
            r == (AdcConfig { resolution, ..self }),
    {
        let mut c = self;
        c.resolution = resolution;
        c
    }

    /// change the align field
    pub fn align(self, align: Align) -> (r: Self)
        ensures
            r == (AdcConfig { align, ..self }),
    {
        let mut c = self;
        c.align = align;
        c
    }

    /// change the scan field
    pub fn scan(self, scan: Scan) -> (r: Self)
        ensures
            r == (AdcConfig { scan, ..self }),
    {
        let mut c = self;
        c.scan = scan;
        c
    }

    /// change the continuous field
    pub fn continuous(self, continuous: Continuous) -> (r: Self)
        ensures
            r == (AdcConfig { continuous, ..self }),
    {
        let mut c = self;
        c.continuous = continuous;
        c
    }

    /// puts the regular group in use, with `cfg`
    pub fn enable_regular_channel(self, cfg: RegularChannelGroupConfig) -> (r: Self)
        ensures
            r == (AdcConfig { regular_channel: Some(cfg), ..self }),
    {
        let mut c = self;
        c.regular_channel = Some(cfg);
        c
    }

    /// puts the inserted group in use, with `cfg`
    pub fn enable_inserted_channel(self, cfg: InsertedChannelGroupConfig) -> (r: Self)
        ensures
            r == (AdcConfig { inserted_channel: Some(cfg), ..self }),
    {
        let mut c = self;
        c.inserted_channel = Some(cfg);
        c
    }

    /// change the default_sample_time field
    pub fn default_sample_time(self, default_sample_time: SampleTime) -> (r: Self)
        ensures
            r == (AdcConfig { default_sample_time, ..self }),
    {
        let mut c = self;
        c.default_sample_time = default_sample_time;
        c
    }
}

impl Default for AdcConfig {
    fn default() -> (r: Self)
        ensures
            r == (AdcConfig {
                clock: Clock::Apb2_div_16,
                resolution: Resolution::Twelve,
                align: Align::Right,
                scan: Scan::Disabled,
                continuous: Continuous::Single,
                regular_channel: None,
                inserted_channel: None,
                default_sample_time: SampleTime::Point_55_5,
            }),
    {
        AdcConfig {
            clock: Clock::Apb2_div_16,
            resolution: Resolution::Twelve,
            align: Align::Right,
            scan: Scan::Disabled,
            continuous: Continuous::Single,
            regular_channel: None,
            inserted_channel: None,
            default_sample_time: SampleTime::Point_55_5,
        }
    }
}

} // verus!
