use vstd::prelude::*;

verus! {

/// Where a power monitor sits on the bus and the shunt-calibration value it is given.
pub struct Configuration {
    address: u8,
    shunt_cal: u16,
}

impl Configuration {
    pub closed spec fn address_spec(&self) -> u8 {
        self.address
    }

    pub closed spec fn shunt_spec(&self) -> u16 {
        self.shunt_cal
    }

    pub fn new(addr: u8, shunt: u16) -> (r: Configuration)
        ensures
            r.address_spec() == addr,
            r.shunt_spec() == shunt,
    {
        Configuration { address: addr, shunt_cal: shunt }
    }

    /// The device's bus address.
    pub fn addr(&self) -> (r: u8)
        ensures
            r == self.address_spec(),
    {
        self.address
    }

    /// The shunt-calibration value.
    pub fn shunt(&self) -> (r: u16)
        ensures
            r == self.shunt_spec(),
    {
        self.shunt_cal
    }
}

/// Full-scale range of the shunt-voltage input.
#[derive(Clone, Copy, Debug, PartialEq, Eq, Structural)]
pub enum AdcRange {
    /// 163.84 mV full scale (field value 0)
    HIGH,
    /// 40.96 mV full scale (field value 1)
    LOW,
}

impl AdcRange {
    /// The one-bit field value.
    pub open spec fn code(self) -> u16 {
        match self {
            AdcRange::HIGH => 0,
            AdcRange::LOW => 1,
        }
    }

    pub fn bits(self) -> (r: u16)
        ensures
            r == self.code(),
    {
        match self {
            AdcRange::HIGH => 0,
            AdcRange::LOW => 1,
        }
    }
}

/// Operating mode: which quantities are converted, once (triggered) or continuously.
#[derive(Clone, Copy, Debug, PartialEq, Eq, Structural)]
pub enum Mode {
    SHUTDOWN,
    TriggeredBusVoltageSs,
    TriggeredShuntVoltageSs,
    TriggeredShuntBusVoltageSs,
    TriggeredTempSs,
    TriggeredTempBusVoltageSs,
    TriggeredTempShuntVoltageSs,
    TriggeredTempShuntBusVoltageSs,
    Shutdown08,
    ContinuousBusVoltage,
    ContinuousShuntVoltage,
    ContinuousShuntBusVoltage,
    ContinuousTemp,
    ContinuousTempBusVoltage,
    ContinuousTempShuntVoltage,
    ContinuousTempShuntBusVoltage,
}

impl Mode {
    /// The four-bit field value, 0x0 to 0xF in declaration order.
    pub open spec fn code(self) -> u16 {
        match self {
            Mode::SHUTDOWN => 0x0,
            Mode::TriggeredBusVoltageSs => 0x1,
            Mode::TriggeredShuntVoltageSs => 0x2,
            Mode::TriggeredShuntBusVoltageSs => 0x3,
            Mode::TriggeredTempSs => 0x4,
            Mode::TriggeredTempBusVoltageSs => 0x5,
            Mode::TriggeredTempShuntVoltageSs => 0x6,
            Mode::TriggeredTempShuntBusVoltageSs => 0x7,
            Mode::Shutdown08 => 0x8,
            Mode::ContinuousBusVoltage => 0x9,
            Mode::ContinuousShuntVoltage => 0xA,
            Mode::ContinuousShuntBusVoltage => 0xB,
            Mode::ContinuousTemp => 0xC,
            Mode::ContinuousTempBusVoltage => 0xD,
            Mode::ContinuousTempShuntVoltage => 0xE,
            Mode::ContinuousTempShuntBusVoltage => 0xF,
        }
    }

    pub fn bits(self) -> (r: u16)
        ensures
            r == self.code(),
    {
        match self {
            Mode::SHUTDOWN => 0x0,
            Mode::TriggeredBusVoltageSs => 0x1,
            Mode::TriggeredShuntVoltageSs => 0x2,
            Mode::TriggeredShuntBusVoltageSs => 0x3,
            Mode::TriggeredTempSs => 0x4,
            Mode::TriggeredTempBusVoltageSs => 0x5,
            Mode::TriggeredTempShuntVoltageSs => 0x6,
            Mode::TriggeredTempShuntBusVoltageSs => 0x7,
            Mode::Shutdown08 => 0x8,
            Mode::ContinuousBusVoltage => 0x9,
            Mode::ContinuousShuntVoltage => 0xA,
            Mode::ContinuousShuntBusVoltage => 0xB,
            Mode::ContinuousTemp => 0xC,
            Mode::ContinuousTempBusVoltage => 0xD,
            Mode::ContinuousTempShuntVoltage => 0xE,
            Mode::ContinuousTempShuntBusVoltage => 0xF,
        }
    }
}

/// Time one conversion of a quantity takes.
#[derive(Clone, Copy, Debug, PartialEq, Eq, Structural)]
pub enum ConversionTime {
    DurationUs50,
    DurationUs84,
    DurationUs150,
    DurationUs280,
    DurationUs540,
    DurationUs1052,
    DurationUs2074,
    DurationUs4120,
}

impl ConversionTime {
    /// The three-bit field value, 0 to 7 from the shortest time to the longest.
    pub open spec fn code(self) -> u16 {
        match self {
            ConversionTime::DurationUs50 => 0,
            ConversionTime::DurationUs84 => 1,
            ConversionTime::DurationUs150 => 2,
            ConversionTime::DurationUs280 => 3,
            ConversionTime::DurationUs540 => 4,
            ConversionTime::DurationUs1052 => 5,
            ConversionTime::DurationUs2074 => 6,
            ConversionTime::DurationUs4120 => 7,
        }
    }

    pub fn bits(self) -> (r: u16)
        ensures
            r == self.code(),
    {
        match self {
            ConversionTime::DurationUs50 => 0,
            ConversionTime::DurationUs84 => 1,
            ConversionTime::DurationUs150 => 2,
            ConversionTime::DurationUs280 => 3,
            ConversionTime::DurationUs540 => 4,
            ConversionTime::DurationUs1052 => 5,
            ConversionTime::DurationUs2074 => 6,
            ConversionTime::DurationUs4120 => 7,
        }
    }
}

/// How many conversions are averaged into one result.
#[derive(Clone, Copy, Debug, PartialEq, Eq, Structural)]
pub enum AdcAveraging {
    Avg1,
    Avg4,
    Avg16,
    Avg64,
    Avg128,
    Avg256,
    Avg512,
    Avg1024,
}

impl AdcAveraging {
    /// The three-bit field value, 0 to 7 from 1 sample to 1024.
    pub open spec fn code(self) -> u16 {
        match self {
            AdcAveraging::Avg1 => 0,
            AdcAveraging::Avg4 => 1,
            AdcAveraging::Avg16 => 2,
            AdcAveraging::Avg64 => 3,
            AdcAveraging::Avg128 => 4,
            AdcAveraging::Avg256 => 5,
            AdcAveraging::Avg512 => 6,
            AdcAveraging::Avg1024 => 7,
        }
    }

    pub fn bits(self) -> (r: u16)
        ensures
            r == self.code(),
    {
        match self {
            AdcAveraging::Avg1 => 0,
            AdcAveraging::Avg4 => 1,
            AdcAveraging::Avg16 => 2,
            AdcAveraging::Avg64 => 3,
            AdcAveraging::Avg128 => 4,
            AdcAveraging::Avg256 => 5,
            AdcAveraging::Avg512 => 6,
            AdcAveraging::Avg1024 => 7,
        }
    }
}

/// Bits of the reset field of the configuration word.
pub const RESET_MASK: u16 = 0x8000;
/// Bits of the conversion-delay field of the configuration word.
pub const CONVERSION_DELAY_MASK: u16 = 0x03C0;
/// Bits of the ADC-range field of the configuration word.
pub const ADC_RANGE_MASK: u16 = 0x0010;

/// Bits of the mode field of the ADC-configuration word.
pub const MODE_MASK: u16 = 0xF000;
/// Bits of the bus-voltage conversion-time field of the ADC-configuration word.
pub const BUS_CONVERSION_MASK: u16 = 0x0E00;
/// Bits of the shunt-voltage conversion-time field of the ADC-configuration word.
pub const SHUNT_CONVERSION_MASK: u16 = 0x01C0;
/// Bits of the temperature conversion-time field of the ADC-configuration word.
pub const TEMPERATURE_CONVERSION_MASK: u16 = 0x0038;
/// Bits of the averaging field of the ADC-configuration word.
pub const AVERAGING_MASK: u16 = 0x0007;

/// Settings written to the configuration and ADC-configuration registers.
pub struct ConfigurationRegisterValues {
    /// Force sensor reset
    pub reset: bool,
    /// Conversion delay, 2ms steps; the low four bits are used.
    pub conversion_delay: u8,
    /// ADC Range.  Default: High
    pub adc_range: AdcRange,
    /// Mode.  Default: continuous temperature, shunt and bus voltage
    pub mode: Mode,
    /// ADC Conversion Time for Bus Voltage.  Default: 1052us
    pub bus_voltage_conversion_time: ConversionTime,
    /// ADC Conversion Time for Shunt Voltage.  Default: 1052us
    pub shunt_voltage_conversion_time: ConversionTime,
    /// ADC Conversion Time for Temperature.  Default: 1052us
    pub temperature_conversion_time: ConversionTime,
    /// ADC Averaging
    pub adc_averaging: AdcAveraging,
}

/// `reset[15] | delay[9:6] | range[4]`, every other bit zero.
pub open spec fn pack_configuration(reset: bool, delay: u16, range: u16) -> u16 {
    (if reset { 0x8000u16 } else { 0u16 }) | ((delay & 0xF) << 6u16) | ((range & 0x1) << 4u16)
}

/// `mode[15:12] | bus[11:9] | shunt[8:6] | temperature[5:3] | averaging[2:0]`.
pub open spec fn pack_adc_configuration(mode: u16, bus: u16, shunt: u16, temperature: u16, averaging: u16) -> u16 {
    ((mode & 0xF) << 12u16) | ((bus & 0x7) << 9u16) | ((shunt & 0x7) << 6u16) | ((temperature & 0x7) << 3u16) | (averaging & 0x7)
}

/// The configuration word that `v` stands for.
pub open spec fn configuration_word(v: ConfigurationRegisterValues) -> u16 {
    pack_configuration(v.reset, v.conversion_delay as u16, v.adc_range.code())
}

/// The ADC-configuration word that `v` stands for.
pub open spec fn adc_configuration_word(v: ConfigurationRegisterValues) -> u16 {
    pack_adc_configuration(
        v.mode.code(),
        v.bus_voltage_conversion_time.code(),
        v.shunt_voltage_conversion_time.code(),
        v.temperature_conversion_time.code(),
        v.adc_averaging.code(),
    )
}

impl ConfigurationRegisterValues {
    /// The power-on settings: no reset, no delay, high range, continuous conversion of
    /// all three quantities at 1052 us each, no averaging.
    pub fn new() -> (r: ConfigurationRegisterValues)
        ensures
            !r.reset,
            r.conversion_delay == 0,
            r.adc_range == AdcRange::HIGH,
            r.mode == Mode::ContinuousTempShuntBusVoltage,
            r.bus_voltage_conversion_time == ConversionTime::DurationUs1052,
            r.shunt_voltage_conversion_time == ConversionTime::DurationUs1052,
            r.temperature_conversion_time == ConversionTime::DurationUs1052,
            r.adc_averaging == AdcAveraging::Avg1,
    {
        ConfigurationRegisterValues {
            reset: false,
            conversion_delay: 0,
            adc_range: AdcRange::HIGH,
            mode: Mode::ContinuousTempShuntBusVoltage,
            bus_voltage_conversion_time: ConversionTime::DurationUs1052,
            shunt_voltage_conversion_time: ConversionTime::DurationUs1052,
            temperature_conversion_time: ConversionTime::DurationUs1052,
            adc_averaging: AdcAveraging::Avg1,
        }
    }

    /// The configuration word: reset at bit 15, the conversion delay at bits 9 to 6,
    /// the ADC range at bit 4, every other bit zero.
    pub fn into_configuration(&self) -> (r: u16)
        ensures
            r == configuration_word(*self),
            (r & RESET_MASK != 0) == self.reset,
            (r & CONVERSION_DELAY_MASK) >> 6u16 == (self.conversion_delay as u16) & 0xF,
            (r & ADC_RANGE_MASK) >> 4u16 == self.adc_range.code(),
            r & !(RESET_MASK | CONVERSION_DELAY_MASK | ADC_RANGE_MASK) == 0,
    {
        let reset: u16 = if self.reset { 0x8000 } else { 0x0000 };
        let delay: u16 = self.conversion_delay as u16;
        let range: u16 = self.adc_range.bits();
        let r: u16 = reset | ((delay & 0xF) << 6) | ((range & 0x1) << 4);
        proof {
            lemma_configuration_fields(self.reset, delay, range);
        }
        r
    }

    /// The ADC-configuration word: mode at bits 15 to 12, the bus-voltage, shunt-voltage
    /// and temperature conversion times at bits 11 to 9, 8 to 6 and 5 to 3, the
    /// averaging factor at bits 2 to 0.
    pub fn into_adc_configuration(&self) -> (r: u16)
        ensures
            r == adc_configuration_word(*self),
            (r & MODE_MASK) >> 12u16 == self.mode.code(),
            (r & BUS_CONVERSION_MASK) >> 9u16 == self.bus_voltage_conversion_time.code(),
            (r & SHUNT_CONVERSION_MASK) >> 6u16 == self.shunt_voltage_conversion_time.code(),
            (r & TEMPERATURE_CONVERSION_MASK) >> 3u16 == self.temperature_conversion_time.code(),
            r & AVERAGING_MASK == self.adc_averaging.code(),
    {
        let mode: u16 = self.mode.bits();
        let bus: u16 = self.bus_voltage_conversion_time.bits();
        let shunt: u16 = self.shunt_voltage_conversion_time.bits();
        let temperature: u16 = self.temperature_conversion_time.bits();
        let averaging: u16 = self.adc_averaging.bits();
        let r: u16 = ((mode & 0xF) << 12) | ((bus & 0x7) << 9) | ((shunt & 0x7) << 6) | ((temperature & 0x7) << 3) | (averaging & 0x7);
        proof {
            lemma_adc_configuration_fields(mode, bus, shunt, temperature, averaging);
        }
        r
    }
}

/// Where each field of the configuration word lands.
proof fn lemma_configuration_fields(reset: bool, delay: u16, range: u16)
    requires
        range < 2,
    ensures
        ({
            let w = pack_configuration(reset, delay, range);
            &&& (w & RESET_MASK != 0) == reset
            &&& (w & CONVERSION_DELAY_MASK) >> 6u16 == delay & 0xF
            &&& (w & ADC_RANGE_MASK) >> 4u16 == range
            &&& w & !(RESET_MASK | CONVERSION_DELAY_MASK | ADC_RANGE_MASK) == 0
        }),
{
    assert({
        let w = pack_configuration(reset, delay, range);
        &&& (w & 0x8000u16 != 0) == reset
        &&& (w & 0x03C0u16) >> 6u16 == delay & 0xF
        &&& (w & 0x0010u16) >> 4u16 == range
        &&& w & !(0x8000u16 | 0x03C0u16 | 0x0010u16) == 0
    }) by (bit_vector)
        requires
            range < 2,
    ;
}

/// Where each field of the ADC-configuration word lands.
proof fn lemma_adc_configuration_fields(mode: u16, bus: u16, shunt: u16, temperature: u16, averaging: u16)
    requires
        mode < 16,
        bus < 8,
        shunt < 8,
        temperature < 8,
        averaging < 8,
    ensures
        ({
            let w = pack_adc_configuration(mode, bus, shunt, temperature, averaging);
            &&& (w & MODE_MASK) >> 12u16 == mode
            &&& (w & BUS_CONVERSION_MASK) >> 9u16 == bus
            &&& (w & SHUNT_CONVERSION_MASK) >> 6u16 == shunt
            &&& (w & TEMPERATURE_CONVERSION_MASK) >> 3u16 == temperature
            &&& w & AVERAGING_MASK == averaging
        }),
{
    assert({
        let w = pack_adc_configuration(mode, bus, shunt, temperature, averaging);
        &&& (w & 0xF000u16) >> 12u16 == mode
        &&& (w & 0x0E00u16) >> 9u16 == bus
        &&& (w & 0x01C0u16) >> 6u16 == shunt
        &&& (w & 0x0038u16) >> 3u16 == temperature
        &&& w & 0x0007u16 == averaging
    }) by (bit_vector)
        requires
            mode < 16,
            bus < 8,
            shunt < 8,
            temperature < 8,
            averaging < 8,
    ;
}

/// Each field of the settings owns its bits of the configuration word: changing one
/// field leaves every bit outside that field's bits as it was, and the bits outside all
/// fields are zero.
pub proof fn configuration_fields_independent(
    v: ConfigurationRegisterValues,
    reset: bool,
    conversion_delay: u8,
    adc_range: AdcRange,
)
    ensures
        configuration_word((ConfigurationRegisterValues { reset, ..v })) & !RESET_MASK
            == configuration_word(v) & !RESET_MASK,
        configuration_word((ConfigurationRegisterValues { conversion_delay, ..v })) & !CONVERSION_DELAY_MASK
            == configuration_word(v) & !CONVERSION_DELAY_MASK,
        configuration_word((ConfigurationRegisterValues { adc_range, ..v })) & !ADC_RANGE_MASK
            == configuration_word(v) & !ADC_RANGE_MASK,
        configuration_word(v) & !(RESET_MASK | CONVERSION_DELAY_MASK | ADC_RANGE_MASK) == 0,
{
    let r0: bool = v.reset;
    let d0: u16 = v.conversion_delay as u16;
    let d1: u16 = conversion_delay as u16;
    let c0: u16 = v.adc_range.code();
    let c1: u16 = adc_range.code();
    assert(pack_configuration(reset, d0, c0) & !0x8000u16 == pack_configuration(r0, d0, c0) & !0x8000u16)
        by (bit_vector);
    assert(pack_configuration(r0, d1, c0) & !0x03C0u16 == pack_configuration(r0, d0, c0) & !0x03C0u16)
        by (bit_vector);
    assert(pack_configuration(r0, d0, c1) & !0x0010u16 == pack_configuration(r0, d0, c0) & !0x0010u16)
        by (bit_vector);
    assert(pack_configuration(r0, d0, c0) & !(0x8000u16 | 0x03C0u16 | 0x0010u16) == 0) by (bit_vector);
}

/// Each field of the settings owns its bits of the ADC-configuration word: changing
/// one field leaves every bit outside that field's bits as it was.
pub proof fn adc_configuration_fields_independent(
    v: ConfigurationRegisterValues,
    mode: Mode,
    bus_voltage_conversion_time: ConversionTime,
    shunt_voltage_conversion_time: ConversionTime,
    temperature_conversion_time: ConversionTime,
    adc_averaging: AdcAveraging,
)
    ensures
        adc_configuration_word((ConfigurationRegisterValues { mode, ..v })) & !MODE_MASK
            == adc_configuration_word(v) & !MODE_MASK,
        adc_configuration_word((ConfigurationRegisterValues { bus_voltage_conversion_time, ..v })) & !BUS_CONVERSION_MASK
            == adc_configuration_word(v) & !BUS_CONVERSION_MASK,
        adc_configuration_word((ConfigurationRegisterValues { shunt_voltage_conversion_time, ..v })) & !SHUNT_CONVERSION_MASK
            == adc_configuration_word(v) & !SHUNT_CONVERSION_MASK,
        adc_configuration_word((ConfigurationRegisterValues { temperature_conversion_time, ..v })) & !TEMPERATURE_CONVERSION_MASK
            == adc_configuration_word(v) & !TEMPERATURE_CONVERSION_MASK,
        adc_configuration_word((ConfigurationRegisterValues { adc_averaging, ..v })) & !AVERAGING_MASK
            == adc_configuration_word(v) & !AVERAGING_MASK,
{
    let m0: u16 = v.mode.code();
    let b0: u16 = v.bus_voltage_conversion_time.code();
    let s0: u16 = v.shunt_voltage_conversion_time.code();
    let t0: u16 = v.temperature_conversion_time.code();
    let a0: u16 = v.adc_averaging.code();
    let m1: u16 = mode.code();
    let b1: u16 = bus_voltage_conversion_time.code();
    let s1: u16 = shunt_voltage_conversion_time.code();
    let t1: u16 = temperature_conversion_time.code();
    let a1: u16 = adc_averaging.code();
    assert(pack_adc_configuration(m1, b0, s0, t0, a0) & !0xF000u16 == pack_adc_configuration(m0, b0, s0, t0, a0) & !0xF000u16)
        by (bit_vector);
    assert(pack_adc_configuration(m0, b1, s0, t0, a0) & !0x0E00u16 == pack_adc_configuration(m0, b0, s0, t0, a0) & !0x0E00u16)
        by (bit_vector);
    assert(pack_adc_configuration(m0, b0, s1, t0, a0) & !0x01C0u16 == pack_adc_configuration(m0, b0, s0, t0, a0) & !0x01C0u16)
        by (bit_vector);
    assert(pack_adc_configuration(m0, b0, s0, t1, a0) & !0x0038u16 == pack_adc_configuration(m0, b0, s0, t0, a0) & !0x0038u16)
        by (bit_vector);
    assert(pack_adc_configuration(m0, b0, s0, t0, a1) & !0x0007u16 == pack_adc_configuration(m0, b0, s0, t0, a0) & !0x0007u16)
        by (bit_vector);
}

/// The ADC range that the low bit of `c` selects.
pub open spec fn adc_range_of(c: u16) -> AdcRange {
    let f = c & 0x1;
    if f == 0 {
        AdcRange::HIGH
    } else {
        AdcRange::LOW
    }
}

impl AdcRange {
    /// The value of the field that `c` holds in its low bits.
    pub fn from_bits(c: u16) -> (r: AdcRange)
        ensures
            r == adc_range_of(c),
    {
        let f: u16 = c & 0x1;
        if f == 0 {
            AdcRange::HIGH
        } else {
            AdcRange::LOW
        }
    }
}

/// The mode that the low four bits of `c` select.
pub open spec fn mode_of(c: u16) -> Mode {
    let f = c & 0xF;
    if f == 0 {
        Mode::SHUTDOWN
    } else if f == 1 {
        Mode::TriggeredBusVoltageSs
    } else if f == 2 {
        Mode::TriggeredShuntVoltageSs
    } else if f == 3 {
        Mode::TriggeredShuntBusVoltageSs
    } else if f == 4 {
        Mode::TriggeredTempSs
    } else if f == 5 {
        Mode::TriggeredTempBusVoltageSs
    } else if f == 6 {
        Mode::TriggeredTempShuntVoltageSs
    } else if f == 7 {
        Mode::TriggeredTempShuntBusVoltageSs
    } else if f == 8 {
        Mode::Shutdown08
    } else if f == 9 {
        Mode::ContinuousBusVoltage
    } else if f == 10 {
        Mode::ContinuousShuntVoltage
    } else if f == 11 {
        Mode::ContinuousShuntBusVoltage
    } else if f == 12 {
        Mode::ContinuousTemp
    } else if f == 13 {
        Mode::ContinuousTempBusVoltage
    } else if f == 14 {
        Mode::ContinuousTempShuntVoltage
    } else {
        Mode::ContinuousTempShuntBusVoltage
    }
}

impl Mode {
    /// The value of the field that `c` holds in its low bits.
    pub fn from_bits(c: u16) -> (r: Mode)
        ensures
            r == mode_of(c),
    {
        let f: u16 = c & 0xF;
        if f == 0 {
            Mode::SHUTDOWN
        } else if f == 1 {
            Mode::TriggeredBusVoltageSs
        } else if f == 2 {
            Mode::TriggeredShuntVoltageSs
        } else if f == 3 {
            Mode::TriggeredShuntBusVoltageSs
        } else if f == 4 {
            Mode::TriggeredTempSs
        } else if f == 5 {
            Mode::TriggeredTempBusVoltageSs
        } else if f == 6 {
            Mode::TriggeredTempShuntVoltageSs
        } else if f == 7 {
            Mode::TriggeredTempShuntBusVoltageSs
        } else if f == 8 {
            Mode::Shutdown08
        } else if f == 9 {
            Mode::ContinuousBusVoltage
        } else if f == 10 {
            Mode::ContinuousShuntVoltage
        } else if f == 11 {
            Mode::ContinuousShuntBusVoltage
        } else if f == 12 {
            Mode::ContinuousTemp
        } else if f == 13 {
            Mode::ContinuousTempBusVoltage
        } else if f == 14 {
            Mode::ContinuousTempShuntVoltage
        } else {
            Mode::ContinuousTempShuntBusVoltage
        }
    }
}

/// The conversion time that the low three bits of `c` select.
pub open spec fn conversion_time_of(c: u16) -> ConversionTime {
    let f = c & 0x7;
    if f == 0 {
        ConversionTime::DurationUs50
    } else if f == 1 {
        ConversionTime::DurationUs84
    } else if f == 2 {
        ConversionTime::DurationUs150
    } else if f == 3 {
        ConversionTime::DurationUs280
    } else if f == 4 {
        ConversionTime::DurationUs540
    } else if f == 5 {
        ConversionTime::DurationUs1052
    } else if f == 6 {
        ConversionTime::DurationUs2074
    } else {
        ConversionTime::DurationUs4120
    }
}

impl ConversionTime {
    /// The value of the field that `c` holds in its low bits.
    pub fn from_bits(c: u16) -> (r: ConversionTime)
        ensures
            r == conversion_time_of(c),
    {
        let f: u16 = c & 0x7;
        if f == 0 {
            ConversionTime::DurationUs50
        } else if f == 1 {
            ConversionTime::DurationUs84
        } else if f == 2 {
            ConversionTime::DurationUs150
        } else if f == 3 {
            ConversionTime::DurationUs280
        } else if f == 4 {
            ConversionTime::DurationUs540
        } else if f == 5 {
            ConversionTime::DurationUs1052
        } else if f == 6 {
            ConversionTime::DurationUs2074
        } else {
            ConversionTime::DurationUs4120
        }
    }
}

/// The averaging factor that the low three bits of `c` select.
pub open spec fn averaging_of(c: u16) -> AdcAveraging {
    let f = c & 0x7;
    if f == 0 {
        AdcAveraging::Avg1
    } else if f == 1 {
        AdcAveraging::Avg4
    } else if f == 2 {
        AdcAveraging::Avg16
    } else if f == 3 {
        AdcAveraging::Avg64
    } else if f == 4 {
        AdcAveraging::Avg128
    } else if f == 5 {
        AdcAveraging::Avg256
    } else if f == 6 {
        AdcAveraging::Avg512
    } else {
        AdcAveraging::Avg1024
    }
}

impl AdcAveraging {
    /// The value of the field that `c` holds in its low bits.
    pub fn from_bits(c: u16) -> (r: AdcAveraging)
        ensures
            r == averaging_of(c),
    {
        let f: u16 = c & 0x7;
        if f == 0 {
            AdcAveraging::Avg1
        } else if f == 1 {
            AdcAveraging::Avg4
        } else if f == 2 {
            AdcAveraging::Avg16
        } else if f == 3 {
            AdcAveraging::Avg64
        } else if f == 4 {
            AdcAveraging::Avg128
        } else if f == 5 {
            AdcAveraging::Avg256
        } else if f == 6 {
            AdcAveraging::Avg512
        } else {
            AdcAveraging::Avg1024
        }
    }
}

/// The settings that a configuration word and an ADC-configuration word hold.
pub open spec fn values_of(configuration: u16, adc_configuration: u16) -> ConfigurationRegisterValues {
    ConfigurationRegisterValues {
        reset: configuration & RESET_MASK != 0,
        conversion_delay: ((configuration & CONVERSION_DELAY_MASK) >> 6u16) as u8,
        adc_range: adc_range_of((configuration & ADC_RANGE_MASK) >> 4u16),
        mode: mode_of((adc_configuration & MODE_MASK) >> 12u16),
        bus_voltage_conversion_time: conversion_time_of((adc_configuration & BUS_CONVERSION_MASK) >> 9u16),
        shunt_voltage_conversion_time: conversion_time_of((adc_configuration & SHUNT_CONVERSION_MASK) >> 6u16),
        temperature_conversion_time: conversion_time_of((adc_configuration & TEMPERATURE_CONVERSION_MASK) >> 3u16),
        adc_averaging: averaging_of(adc_configuration & AVERAGING_MASK),
    }
}

impl ConfigurationRegisterValues {
    /// Decodes the settings from a configuration word and an ADC-configuration word, as
    /// read back from the device; bits outside every field are ignored.
    pub fn from_words(configuration: u16, adc_configuration: u16) -> (r: ConfigurationRegisterValues)
        ensures
            r == values_of(configuration, adc_configuration),
    {
        ConfigurationRegisterValues {
            reset: configuration & RESET_MASK != 0,
            conversion_delay: ((configuration & CONVERSION_DELAY_MASK) >> 6) as u8,
            adc_range: AdcRange::from_bits((configuration & ADC_RANGE_MASK) >> 4),
            mode: Mode::from_bits((adc_configuration & MODE_MASK) >> 12),
            bus_voltage_conversion_time: ConversionTime::from_bits((adc_configuration & BUS_CONVERSION_MASK) >> 9),
            shunt_voltage_conversion_time: ConversionTime::from_bits((adc_configuration & SHUNT_CONVERSION_MASK) >> 6),
            temperature_conversion_time: ConversionTime::from_bits((adc_configuration & TEMPERATURE_CONVERSION_MASK) >> 3),
            adc_averaging: AdcAveraging::from_bits(adc_configuration & AVERAGING_MASK),
        }
    }
}

/// Decoding the two words and encoding the settings again gives back every field bit
/// of the words (the bits outside all fields read as zero); encoding settings whose
/// conversion delay fits its four bits and decoding the words gives the settings back.
pub proof fn configuration_round_trip(v: ConfigurationRegisterValues, configuration: u16, adc_configuration: u16)
    ensures
        configuration_word(values_of(configuration, adc_configuration))
            == configuration & (RESET_MASK | CONVERSION_DELAY_MASK | ADC_RANGE_MASK),
        adc_configuration_word(values_of(configuration, adc_configuration)) == adc_configuration,
        v.conversion_delay < 16 ==> values_of(configuration_word(v), adc_configuration_word(v)) == v,
{
    let c = configuration;
    let a = adc_configuration;
    let range: u16 = (c & 0x0010u16) >> 4u16;
    let delay: u16 = (c & 0x03C0u16) >> 6u16;
    let m: u16 = (a & 0xF000u16) >> 12u16;
    let b: u16 = (a & 0x0E00u16) >> 9u16;
    let sh: u16 = (a & 0x01C0u16) >> 6u16;
    let t: u16 = (a & 0x0038u16) >> 3u16;
    let av: u16 = a & 0x0007u16;
    assert(range < 2 && delay < 16 && m < 16 && b < 8 && sh < 8 && t < 8 && av < 8) by (bit_vector)
        requires
            range == (c & 0x0010u16) >> 4u16,
            delay == (c & 0x03C0u16) >> 6u16,
            m == (a & 0xF000u16) >> 12u16,
            b == (a & 0x0E00u16) >> 9u16,
            sh == (a & 0x01C0u16) >> 6u16,
            t == (a & 0x0038u16) >> 3u16,
            av == a & 0x0007u16,
    ;
    assert(range & 0x1 == range && m & 0xF == m && b & 0x7 == b && sh & 0x7 == sh && t & 0x7 == t && av & 0x7 == av)
        by (bit_vector)
        requires
            range < 2,
            m < 16,
            b < 8,
            sh < 8,
            t < 8,
            av < 8,
    ;
    let w = values_of(c, a);
    assert(w.adc_range.code() == range);
    assert(w.mode.code() == m);
    assert(w.bus_voltage_conversion_time.code() == b);
    assert(w.shunt_voltage_conversion_time.code() == sh);
    assert(w.temperature_conversion_time.code() == t);
    assert(w.adc_averaging.code() == av);
    assert(w.conversion_delay as u16 == delay);
    assert(pack_configuration(c & 0x8000u16 != 0, (((c & 0x03C0u16) >> 6u16) as u8) as u16, (c & 0x0010u16) >> 4u16)
        == c & (0x8000u16 | 0x03C0u16 | 0x0010u16)) by (bit_vector);
    assert(pack_adc_configuration(
        (a & 0xF000u16) >> 12u16,
        (a & 0x0E00u16) >> 9u16,
        (a & 0x01C0u16) >> 6u16,
        (a & 0x0038u16) >> 3u16,
        a & 0x0007u16,
    ) == a) by (bit_vector);

    if v.conversion_delay < 16 {
        let d: u16 = v.conversion_delay as u16;
        lemma_configuration_fields(v.reset, d, v.adc_range.code());
        lemma_adc_configuration_fields(
            v.mode.code(),
            v.bus_voltage_conversion_time.code(),
            v.shunt_voltage_conversion_time.code(),
            v.temperature_conversion_time.code(),
            v.adc_averaging.code(),
        );
        assert(d & 0xF == d) by (bit_vector)
            requires
                d < 16,
        ;
        let (rc, mc, bc, sc, tc, ac) = (
            v.adc_range.code(),
            v.mode.code(),
            v.bus_voltage_conversion_time.code(),
            v.shunt_voltage_conversion_time.code(),
            v.temperature_conversion_time.code(),
            v.adc_averaging.code(),
        );
        assert(rc & 0x1 == rc && mc & 0xF == mc && bc & 0x7 == bc && sc & 0x7 == sc && tc & 0x7 == tc && ac & 0x7 == ac)
            by (bit_vector)
            requires
                rc < 2,
                mc < 16,
                bc < 8,
                sc < 8,
                tc < 8,
                ac < 8,
        ;
        assert(adc_range_of(rc) == v.adc_range);
        assert(mode_of(mc) == v.mode);
        assert(conversion_time_of(bc) == v.bus_voltage_conversion_time);
        assert(conversion_time_of(sc) == v.shunt_voltage_conversion_time);
        assert(conversion_time_of(tc) == v.temperature_conversion_time);
        assert(averaging_of(ac) == v.adc_averaging);
        assert(values_of(configuration_word(v), adc_configuration_word(v)) =~= v);
    }
}

} // verus!
