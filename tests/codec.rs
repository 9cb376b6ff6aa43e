use sensor_bus::ina237_types::{AdcAveraging, AdcRange, Configuration, ConfigurationRegisterValues, ConversionTime, Mode};
use sensor_bus::nau7802_registers::{ConversionRate, Gains, LdoVoltage, CTRL1, CTRL2, PU_CTRL};

#[test]
fn configuration_constructor_sets_values() {
    let result = Configuration::new(0x01, 2000);

    assert_eq!(2000, result.shunt());
    assert_eq!(0x01, result.addr());
}

#[test]
fn types_configuration_constructor_sets_values() {
    let result = Configuration::new(0x01, 2000);

    assert_eq!(2000, result.shunt());
}

#[test]
fn types_configuration_values_into_u16_reset_false() {
    let configuration_register_values = ConfigurationRegisterValues::new();
    let result: u16 = configuration_register_values.into_configuration();

    assert_eq!(0x0000, 0x8000 & result);
}

#[test]
fn configuration_values_into_u16_reset_false() {
    let configuration_register_values = ConfigurationRegisterValues::new();
    let result: u16 = configuration_register_values.into_configuration();

    assert_eq!(0x0000, 0x8000 & result);
}

#[test]
fn configuration_values_with_reset_into_u16_reset_true() {
    let mut configuration_register_values = ConfigurationRegisterValues::new();

    configuration_register_values.reset = true;

    let result: u16 = configuration_register_values.into_configuration();

    assert_eq!(0x8000, 0x8000 & result);
}

#[test]
fn configuration_values_with_high_adc_into_u16_adc_range_clear() {
    let mut configuration_register_values = ConfigurationRegisterValues::new();

    configuration_register_values.adc_range = AdcRange::HIGH;

    let result: u16 = configuration_register_values.into_configuration();

    assert_eq!(0x0000, 0x0010 & result);
}

#[test]
fn configuration_values_with_low_adc_into_u16_adc_range_set() {
    let mut configuration_register_values = ConfigurationRegisterValues::new();

    configuration_register_values.adc_range = AdcRange::LOW;

    let result: u16 = configuration_register_values.into_configuration();

    assert_eq!(0x0010, 0x0010 & result);
}

#[test]
fn configuration_values_with_low_adc_into_adc_configuration_mode_set() {
    let mut configuration_register_values = ConfigurationRegisterValues::new();

    configuration_register_values.mode = Mode::ContinuousBusVoltage;

    let result: u16 = configuration_register_values.into_adc_configuration();

    assert_eq!(Mode::ContinuousBusVoltage as u16, (result >> 12) & 0x0F);
}

#[test]
fn configuration_values_with_bus_conversion_into_adc_configuration() {
    let mut configuration_register_values = ConfigurationRegisterValues::new();

    configuration_register_values.bus_voltage_conversion_time = ConversionTime::DurationUs150;

    let result: u16 = configuration_register_values.into_adc_configuration();

    assert_eq!(ConversionTime::DurationUs150 as u16, (result >> 9) & 0x07);
}

#[test]
fn configuration_values_with_shunt_conversion_into_adc_configuration() {
    let mut configuration_register_values = ConfigurationRegisterValues::new();

    configuration_register_values.shunt_voltage_conversion_time = ConversionTime::DurationUs150;

    let result: u16 = configuration_register_values.into_adc_configuration();

    assert_eq!(ConversionTime::DurationUs150 as u16, (result >> 6) & 0x07);
}

#[test]
fn configuration_values_with_temp_conversion_into_adc_configuration() {
    let mut configuration_register_values = ConfigurationRegisterValues::new();

    configuration_register_values.temperature_conversion_time = ConversionTime::DurationUs150;

    let result: u16 = configuration_register_values.into_adc_configuration();

    assert_eq!(ConversionTime::DurationUs150 as u16, (result >> 3) & 0x07);
}

#[test]
fn configuration_values_with_averaging_into_adc_configuration() {
    let mut configuration_register_values = ConfigurationRegisterValues::new();

    configuration_register_values.adc_averaging = AdcAveraging::Avg256;

    let result: u16 = configuration_register_values.into_adc_configuration();

    assert_eq!(AdcAveraging::Avg256 as u16, (result >> 0) & 0x07);
}

#[test]
fn convert_gain_through_u8_returns_same_value_x32() {
    const INPUT: Gains = Gains::x32;

    let intermediate = INPUT as u8;

    let result = Gains::from(intermediate);

    assert_eq!(INPUT, result);
}

#[test]
fn default_words_match_power_on_values() {
    let v = ConfigurationRegisterValues::new();
    assert_eq!(0x0000, v.into_configuration());
    assert_eq!(0xFB68, v.into_adc_configuration());
}

#[test]
fn conversion_delay_lands_in_bits_nine_to_six() {
    let mut v = ConfigurationRegisterValues::new();
    v.conversion_delay = 5;
    assert_eq!(0x0140, v.into_configuration());
    v.conversion_delay = 0x1F;
    assert_eq!(0x03C0, v.into_configuration());
}

#[test]
fn toggling_one_field_leaves_other_bits() {
    let mut v = ConfigurationRegisterValues::new();
    v.reset = true;
    v.adc_range = AdcRange::LOW;
    v.conversion_delay = 9;
    let base = v.into_configuration();
    assert_eq!(0x8250, base);
    v.reset = false;
    assert_eq!(base & !0x8000, v.into_configuration() & !0x8000);
    v.adc_range = AdcRange::HIGH;
    assert_eq!(base & !0x8010, v.into_configuration());

    let mut a = ConfigurationRegisterValues::new();
    a.mode = Mode::TriggeredShuntVoltageSs;
    a.bus_voltage_conversion_time = ConversionTime::DurationUs4120;
    a.shunt_voltage_conversion_time = ConversionTime::DurationUs50;
    a.temperature_conversion_time = ConversionTime::DurationUs280;
    a.adc_averaging = AdcAveraging::Avg1024;
    let word = a.into_adc_configuration();
    assert_eq!(0x2E1F, word);
    a.adc_averaging = AdcAveraging::Avg1;
    assert_eq!(word & !0x0007, a.into_adc_configuration());
    a.mode = Mode::SHUTDOWN;
    assert_eq!(word & !0xF007, a.into_adc_configuration());
}

#[test]
fn pu_ctrl_round_trips_every_byte() {
    for b in 0..=255u8 {
        let decoded = PU_CTRL::from(b);
        let encoded: u8 = decoded.into();
        assert_eq!(b, encoded);
    }
    let p = PU_CTRL::from(0x28);
    assert!(p.CR && p.PUR && !p.AVDDS && !p.RR);
}

#[test]
fn pu_ctrl_reset_sets_only_the_reset_flag() {
    assert_eq!(0x01u8, PU_CTRL::reset(true).into());
    assert_eq!(0x00u8, PU_CTRL::reset(false).into());
}

#[test]
fn ctrl1_round_trips_every_byte() {
    for b in 0..=255u8 {
        let encoded: u8 = CTRL1::from(b).into();
        assert_eq!(b, encoded);
    }
    let c = CTRL1::from(0x2C);
    assert!(c.conversion_ready_polarity_high);
    assert!(!c.drdy_clock_output);
    assert_eq!(LdoVoltage::v3_0, c.ldo_voltage);
    assert_eq!(Gains::x16, c.gain_select);
    assert!(!CTRL1::from(0x80).conversion_ready_polarity_high);
}

#[test]
fn ctrl2_round_trips_bytes_with_a_defined_rate() {
    for b in 0..=255u8 {
        let rate = (b >> 4) & 0x07;
        let encoded: u8 = CTRL2::from(b).into();
        if rate <= 3 || rate == 7 {
            assert_eq!(b, encoded);
        } else {
            assert_eq!(b & 0x8F, encoded);
        }
    }
    let c = CTRL2::from(0xB6);
    assert!(c.channel2_selected);
    assert_eq!(ConversionRate::SPS_80, c.conversion_rate);
    assert!(c.calibrate);
    assert!(!c.cal_error);
    assert_eq!(2, c.cal_mod);
}

#[test]
fn ctrl2_encoding_keeps_fields() {
    let c = CTRL2 {
        channel2_selected: true,
        conversion_rate: ConversionRate::SPS_320,
        cal_error: true,
        calibrate: false,
        cal_mod: 1,
    };
    let b: u8 = c.into();
    assert_eq!(0xF9, b);
    assert_eq!(c, CTRL2::from(b));
}

#[test]
fn field_values_without_a_name_take_the_default() {
    assert_eq!(LdoVoltage::v4_5, LdoVoltage::from(9));
    assert_eq!(Gains::x1, Gains::from(8));
    assert_eq!(ConversionRate::SPS_10, ConversionRate::from(5));
    assert_eq!(ConversionRate::SPS_320, ConversionRate::from(7));
    assert_eq!(LdoVoltage::v2_4, LdoVoltage::from(7));
}

#[test]
fn configuration_words_decode_and_encode_back() {
    let v = ConfigurationRegisterValues::from_words(0x8250, 0x2E1F);
    assert!(v.reset);
    assert_eq!(9, v.conversion_delay);
    assert_eq!(AdcRange::LOW, v.adc_range);
    assert_eq!(Mode::TriggeredShuntVoltageSs, v.mode);
    assert_eq!(ConversionTime::DurationUs4120, v.bus_voltage_conversion_time);
    assert_eq!(ConversionTime::DurationUs50, v.shunt_voltage_conversion_time);
    assert_eq!(ConversionTime::DurationUs280, v.temperature_conversion_time);
    assert_eq!(AdcAveraging::Avg1024, v.adc_averaging);
    assert_eq!(0x8250, v.into_configuration());
    assert_eq!(0x2E1F, v.into_adc_configuration());

    let unused_bits_set = ConfigurationRegisterValues::from_words(0xFFFF, 0xFB68);
    assert_eq!(0x83D0, unused_bits_set.into_configuration());
    assert_eq!(0xFB68, unused_bits_set.into_adc_configuration());
}
