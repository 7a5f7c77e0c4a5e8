use longan_nano_playground::adc::config::{
    AdcConfig, Align, Clock, Continuous, InsertedChannelGroupConfig, InsertedExternalTrigger,
    Insertion, RegularChannelGroupConfig, RegularExternalTrigger, Resolution, SampleTime, Scan,
};
use longan_nano_playground::adc::{sample_time_slot, with_sample_time, SampleTimeRegister, SyncMode};

#[test]
fn adc_config_default() {
    let c = AdcConfig::default();
    assert_eq!(c.clock, Clock::Apb2_div_16);
    assert_eq!(c.resolution, Resolution::Twelve);
    assert_eq!(c.align, Align::Right);
    assert_eq!(c.scan, Scan::Disabled);
    assert_eq!(c.continuous, Continuous::Single);
    assert_eq!(c.regular_channel, None);
    assert_eq!(c.inserted_channel, None);
    assert_eq!(c.default_sample_time, SampleTime::Point_55_5);
    assert_eq!(SampleTime::default(), SampleTime::Point_55_5);
}

#[test]
fn adc_config_builders_change_one_field() {
    let base = AdcConfig::default();
    let c = base
        .clock(Clock::Apb2_div_4)
        .resolution(Resolution::Eight)
        .align(Align::Left)
        .scan(Scan::Enabled)
        .continuous(Continuous::Continuous)
        .default_sample_time(SampleTime::Point_239_5);
    assert_eq!(c.clock, Clock::Apb2_div_4);
    assert_eq!(c.resolution, Resolution::Eight);
    assert_eq!(c.align, Align::Left);
    assert_eq!(c.scan, Scan::Enabled);
    assert_eq!(c.continuous, Continuous::Continuous);
    assert_eq!(c.default_sample_time, SampleTime::Point_239_5);
    assert_eq!(c.regular_channel, None);
    assert_eq!(base.clock(Clock::Apb2_div_2).resolution, Resolution::Twelve);
}

#[test]
fn adc_config_channel_groups() {
    let regular = RegularChannelGroupConfig::default().external_trigger(RegularExternalTrigger::Exti11);
    let inserted = InsertedChannelGroupConfig::default()
        .external_trigger(InsertedExternalTrigger::Timer1_Ch0)
        .insertion(Insertion::Auto);
    let c = AdcConfig::default().enable_regular_channel(regular).enable_inserted_channel(inserted);
    assert_eq!(c.regular_channel.unwrap().external_trigger, RegularExternalTrigger::Exti11);
    let i = c.inserted_channel.unwrap();
    assert_eq!(i.external_trigger, InsertedExternalTrigger::Timer1_Ch0);
    assert_eq!(i.insertion, Insertion::Auto);
    assert_eq!(
        RegularChannelGroupConfig::default().external_trigger,
        RegularExternalTrigger::Software
    );
    let d = InsertedChannelGroupConfig::default();
    assert_eq!(d.external_trigger, InsertedExternalTrigger::Software);
    assert_eq!(d.insertion, Insertion::Triggered);
}

#[test]
fn adc_field_values() {
    assert_eq!(SampleTime::Point_1_5.bits(), 0);
    assert_eq!(SampleTime::Point_239_5.bits(), 7);
    assert_eq!(Clock::Apb2_div_8.bits(), 3);
    assert_eq!(Clock::Apb2_div_12.bits(), 5);
    assert_eq!(Clock::Apb2_div_16.bits(), 7);
    assert_eq!(Resolution::Six.bits(), 3);
    assert_eq!(RegularExternalTrigger::Timer1_Ch1.bits(), 0b011);
    assert_eq!(RegularExternalTrigger::Software.bits(), 0b111);
    assert_eq!(InsertedExternalTrigger::Timer3_Trgo.bits(), 0b101);
    assert_eq!(SyncMode::Free.bits(), 0);
    assert_eq!(SyncMode::DualInsertedTriggerRotation.bits(), 9);
}

#[test]
fn adc_clock_prescaler_fields() {
    assert_eq!(Clock::Apb2_div_2.prescaler(), (0, false));
    assert_eq!(Clock::Apb2_div_8.prescaler(), (3, false));
    assert_eq!(Clock::Apb2_div_12.prescaler(), (1, true));
    assert_eq!(Clock::Apb2_div_16.prescaler(), (3, true));
}

#[test]
fn adc_flags_as_bool() {
    assert!(bool::from(Align::Left));
    assert!(!bool::from(Align::Right));
    assert!(bool::from(Scan::Enabled));
    assert!(!bool::from(Continuous::Single));
    assert!(bool::from(Insertion::Auto));
}

#[test]
fn adc_sample_time_slots() {
    assert_eq!(sample_time_slot(0), (SampleTimeRegister::Sampt1, 0));
    assert_eq!(sample_time_slot(9), (SampleTimeRegister::Sampt1, 27));
    assert_eq!(sample_time_slot(10), (SampleTimeRegister::Sampt0, 0));
    assert_eq!(sample_time_slot(17), (SampleTimeRegister::Sampt0, 21));
}

#[test]
fn adc_sample_time_field_update() {
    assert_eq!(with_sample_time(0xffff_ffff, 3, SampleTime::Point_1_5), 0xffff_ffc7);
    assert_eq!(with_sample_time(0, 27, SampleTime::Point_239_5), 7 << 27);
    assert_eq!(with_sample_time(0b101_000, 3, SampleTime::Point_7_5), 0b001_000);
    assert_eq!(with_sample_time(0x8000_0000, 18, SampleTime::Point_55_5), 0x8000_0000 | (5 << 18));
}
