use vstd::prelude::*;

verus! {

/// Register map of the ADC.
#[allow(non_camel_case_types)]
#[derive(Clone, Copy, Debug, PartialEq, Eq, Structural)]
pub enum Registers {
    PU_CTRL,
    CTRL1,
    CTRL2,
    OCAL1_B2,
    OCAL1_B1,
    OCAL1_B0,
    GCAL1_B3,
    GCAL1_B2,
    GCAL1_B1,
    GCAL1_B0,
    OCAL2_B2,
    OCAL2_B1,
    OCAL2_B0,
    GCAL2_B3,
    GCAL2_B2,
    GCAL2_B1,
    GCAL2_B0,
    I2C_CTRL,
    ADCO_B2,
    ADCO_B1,
    ADCO_B0,
    OTP_B1,
    OTP_B0,
    DEVICE_REVISION,
}

impl Registers {
    /// The register's index on the device.
    pub open spec fn index(self) -> u8 {
        match self {
            Registers::PU_CTRL => 0x00,
            Registers::CTRL1 => 0x01,
            Registers::CTRL2 => 0x02,
            Registers::OCAL1_B2 => 0x03,
            Registers::OCAL1_B1 => 0x04,
            Registers::OCAL1_B0 => 0x05,
            Registers::GCAL1_B3 => 0x06,
            Registers::GCAL1_B2 => 0x07,
            Registers::GCAL1_B1 => 0x08,
            Registers::GCAL1_B0 => 0x09,
            Registers::OCAL2_B2 => 0x0A,
            Registers::OCAL2_B1 => 0x0B,
            Registers::OCAL2_B0 => 0x0C,
            Registers::GCAL2_B3 => 0x0D,
            Registers::GCAL2_B2 => 0x0E,
            Registers::GCAL2_B1 => 0x0F,
            Registers::GCAL2_B0 => 0x10,
            Registers::I2C_CTRL => 0x11,
            Registers::ADCO_B2 => 0x12,
            Registers::ADCO_B1 => 0x13,
            Registers::ADCO_B0 => 0x14,
            Registers::OTP_B1 => 0x15,
            Registers::OTP_B0 => 0x16,
            Registers::DEVICE_REVISION => 0x1F,
        }
    }

    pub fn addr(self) -> (r: u8)
        ensures
            r == self.index(),
    {
        match self {
            Registers::PU_CTRL => 0x00,
            Registers::CTRL1 => 0x01,
            Registers::CTRL2 => 0x02,
            Registers::OCAL1_B2 => 0x03,
            Registers::OCAL1_B1 => 0x04,
            Registers::OCAL1_B0 => 0x05,
            Registers::GCAL1_B3 => 0x06,
            Registers::GCAL1_B2 => 0x07,
            Registers::GCAL1_B1 => 0x08,
            Registers::GCAL1_B0 => 0x09,
            Registers::OCAL2_B2 => 0x0A,
            Registers::OCAL2_B1 => 0x0B,
            Registers::OCAL2_B0 => 0x0C,
            Registers::GCAL2_B3 => 0x0D,
            Registers::GCAL2_B2 => 0x0E,
            Registers::GCAL2_B1 => 0x0F,
            Registers::GCAL2_B0 => 0x10,
            Registers::I2C_CTRL => 0x11,
            Registers::ADCO_B2 => 0x12,
            Registers::ADCO_B1 => 0x13,
            Registers::ADCO_B0 => 0x14,
            Registers::OTP_B1 => 0x15,
            Registers::OTP_B0 => 0x16,
            Registers::DEVICE_REVISION => 0x1F,
        }
    }
}

/// Power-up control register, one flag per bit from bit 7 (`AVDDS`) down to bit 0 (`RR`).
#[allow(non_snake_case)]
#[allow(non_camel_case_types)]
#[derive(Clone, Copy, Debug, PartialEq, Eq, Structural)]
pub struct PU_CTRL {
    /// Analog supply from the internal LDO (bit 7).
    pub AVDDS: bool,
    /// External oscillator select (bit 6).
    pub OSCS: bool,
    /// Conversion ready, read only (bit 5).
    pub CR: bool,
    /// Cycle start (bit 4).
    pub CS: bool,
    /// Power-up ready, read only (bit 3).
    pub PUR: bool,
    /// Power up analog (bit 2).
    pub PUA: bool,
    /// Power up digital (bit 1).
    pub PUD: bool,
    /// Register reset (bit 0).
    pub RR: bool,
}

/// Power-up-ready flag of the power-up control register.
pub const PUR_MASK: u8 = 0x08;

/// Calibration-in-progress flag of control register 2.
pub const CALS_MASK: u8 = 0x04;

/// The flags that the power-up control byte `b` holds.
pub open spec fn pu_ctrl_of(b: u8) -> PU_CTRL {
    PU_CTRL {
        AVDDS: b & 0x80 != 0,
        OSCS: b & 0x40 != 0,
        CR: b & 0x20 != 0,
        CS: b & 0x10 != 0,
        PUR: b & 0x08 != 0,
        PUA: b & 0x04 != 0,
        PUD: b & 0x02 != 0,
        RR: b & 0x01 != 0,
    }
}

pub open spec fn flag(f: bool, bit: u8) -> u8 {
    if f { bit } else { 0 }
}

/// The power-up control byte with the flags of `p`.
pub open spec fn pu_ctrl_byte(p: PU_CTRL) -> u8 {
    flag(p.AVDDS, 0x80) | flag(p.OSCS, 0x40) | flag(p.CR, 0x20) | flag(p.CS, 0x10) | flag(p.PUR, 0x08)
        | flag(p.PUA, 0x04) | flag(p.PUD, 0x02) | flag(p.RR, 0x01)
}

impl PU_CTRL {
    /// All flags clear but the register-reset flag, which is `reset`.
    pub fn reset(reset: bool) -> (r: PU_CTRL)
        ensures
            r == pu_ctrl_of(if reset { 0x01 } else { 0x00 }),
    {
        let r = PU_CTRL {
            AVDDS: false,
            OSCS: false,
            CR: false,
            CS: false,
            PUR: false,
            PUA: false,
            PUD: false,
            RR: reset,
        };
        assert(r == pu_ctrl_of(if reset { 0x01 } else { 0x00 })) by {
            assert(0x01u8 & 0x80 == 0 && 0x01u8 & 0x40 == 0 && 0x01u8 & 0x20 == 0 && 0x01u8 & 0x10 == 0
                && 0x01u8 & 0x08 == 0 && 0x01u8 & 0x04 == 0 && 0x01u8 & 0x02 == 0 && 0x01u8 & 0x01 != 0)
                by (bit_vector);
            assert(0x00u8 & 0x80 == 0 && 0x00u8 & 0x40 == 0 && 0x00u8 & 0x20 == 0 && 0x00u8 & 0x10 == 0
                && 0x00u8 & 0x08 == 0 && 0x00u8 & 0x04 == 0 && 0x00u8 & 0x02 == 0 && 0x00u8 & 0x01 == 0)
                by (bit_vector);
        }
        r
    }
}

impl From<u8> for PU_CTRL {
    fn from(value: u8) -> (r: Self) {
        PU_CTRL {
            AVDDS: value & 0x80 != 0,
            OSCS: value & 0x40 != 0,
            CR: value & 0x20 != 0,
            CS: value & 0x10 != 0,
            PUR: value & 0x08 != 0,
            PUA: value & 0x04 != 0,
            PUD: value & 0x02 != 0,
            RR: value & 0x01 != 0,
        }
    }
}

impl vstd::std_specs::convert::FromSpecImpl<u8> for PU_CTRL {
    open spec fn obeys_from_spec() -> bool {
        true
    }

    open spec fn from_spec(v: u8) -> PU_CTRL {
        pu_ctrl_of(v)
    }
}

impl From<PU_CTRL> for u8 {
    fn from(p: PU_CTRL) -> (r: u8) {
        (if p.AVDDS { 0x80u8 } else { 0x00u8 }) | (if p.OSCS { 0x40u8 } else { 0x00u8 }) | (if p.CR {
            0x20u8
        } else {
            0x00u8
        }) | (if p.CS { 0x10u8 } else { 0x00u8 }) | (if p.PUR { 0x08u8 } else { 0x00u8 }) | (if p.PUA {
            0x04u8
        } else {
            0x00u8
        }) | (if p.PUD { 0x02u8 } else { 0x00u8 }) | (if p.RR { 0x01u8 } else { 0x00u8 })
    }
}

impl vstd::std_specs::convert::FromSpecImpl<PU_CTRL> for u8 {
    open spec fn obeys_from_spec() -> bool {
        true
    }

    open spec fn from_spec(p: PU_CTRL) -> u8 {
        pu_ctrl_byte(p)
    }
}

/// Decoding a power-up control byte and encoding the flags again gives the byte back,
/// and encoding flags and decoding the byte gives the flags back.
pub proof fn pu_ctrl_round_trip(b: u8, p: PU_CTRL)
    ensures
        pu_ctrl_byte(pu_ctrl_of(b)) == b,
        pu_ctrl_of(pu_ctrl_byte(p)) == p,
{
    assert(flag(b & 0x80 != 0, 0x80) | flag(b & 0x40 != 0, 0x40) | flag(b & 0x20 != 0, 0x20) | flag(b & 0x10 != 0, 0x10)
        | flag(b & 0x08 != 0, 0x08) | flag(b & 0x04 != 0, 0x04) | flag(b & 0x02 != 0, 0x02) | flag(b & 0x01 != 0, 0x01) == b)
        by (bit_vector);
    let (a, o, cr, cs, pur, pua, pud, rr) = (p.AVDDS, p.OSCS, p.CR, p.CS, p.PUR, p.PUA, p.PUD, p.RR);
    let w = flag(a, 0x80) | flag(o, 0x40) | flag(cr, 0x20) | flag(cs, 0x10) | flag(pur, 0x08) | flag(pua, 0x04)
        | flag(pud, 0x02) | flag(rr, 0x01);
    assert(w == pu_ctrl_byte(p));
    assert({
        let w = flag(a, 0x80) | flag(o, 0x40) | flag(cr, 0x20) | flag(cs, 0x10) | flag(pur, 0x08) | flag(pua, 0x04)
            | flag(pud, 0x02) | flag(rr, 0x01);
        &&& (w & 0x80 != 0) == a
        &&& (w & 0x40 != 0) == o
        &&& (w & 0x20 != 0) == cr
        &&& (w & 0x10 != 0) == cs
        &&& (w & 0x08 != 0) == pur
        &&& (w & 0x04 != 0) == pua
        &&& (w & 0x02 != 0) == pud
        &&& (w & 0x01 != 0) == rr
    }) by (bit_vector);
}

/// Output voltage of the internal LDO.
#[allow(non_camel_case_types)]
#[derive(Clone, Copy, Debug, PartialEq, Eq, Structural)]
pub enum LdoVoltage {
    v4_5,
    v4_2,
    v3_9,
    v3_6,
    v3_3,
    v3_0,
    v2_7,
    v2_4,
}

impl LdoVoltage {
    /// The field value.
    pub open spec fn code(self) -> u8 {
        match self {
            LdoVoltage::v4_5 => 0b000,
            LdoVoltage::v4_2 => 0b001,
            LdoVoltage::v3_9 => 0b010,
            LdoVoltage::v3_6 => 0b011,
            LdoVoltage::v3_3 => 0b100,
            LdoVoltage::v3_0 => 0b101,
            LdoVoltage::v2_7 => 0b110,
            LdoVoltage::v2_4 => 0b111,
        }
    }

    pub fn bits(self) -> (r: u8)
        ensures
            r == self.code(),
    {
        match self {
            LdoVoltage::v4_5 => 0b000,
            LdoVoltage::v4_2 => 0b001,
            LdoVoltage::v3_9 => 0b010,
            LdoVoltage::v3_6 => 0b011,
            LdoVoltage::v3_3 => 0b100,
            LdoVoltage::v3_0 => 0b101,
            LdoVoltage::v2_7 => 0b110,
            LdoVoltage::v2_4 => 0b111,
        }
    }
}

/// The LDO voltage of field value `b`; values above 7 give 4.5 V.
pub open spec fn ldo_voltage_of(b: u8) -> LdoVoltage {
    if b == 0b001 {
        LdoVoltage::v4_2
    } else if b == 0b010 {
        LdoVoltage::v3_9
    } else if b == 0b011 {
        LdoVoltage::v3_6
    } else if b == 0b100 {
        LdoVoltage::v3_3
    } else if b == 0b101 {
        LdoVoltage::v3_0
    } else if b == 0b110 {
        LdoVoltage::v2_7
    } else if b == 0b111 {
        LdoVoltage::v2_4
    } else {
        LdoVoltage::v4_5
    }
}

impl From<u8> for LdoVoltage {
    fn from(b: u8) -> (r: Self) {
        if b == 0b001 {
            LdoVoltage::v4_2
        } else if b == 0b010 {
            LdoVoltage::v3_9
        } else if b == 0b011 {
            LdoVoltage::v3_6
        } else if b == 0b100 {
            LdoVoltage::v3_3
        } else if b == 0b101 {
            LdoVoltage::v3_0
        } else if b == 0b110 {
            LdoVoltage::v2_7
        } else if b == 0b111 {
            LdoVoltage::v2_4
        } else {
            LdoVoltage::v4_5
        }
    }
}

impl vstd::std_specs::convert::FromSpecImpl<u8> for LdoVoltage {
    open spec fn obeys_from_spec() -> bool {
        true
    }

    open spec fn from_spec(b: u8) -> LdoVoltage {
        ldo_voltage_of(b)
    }
}

/// Gain of the programmable amplifier.
#[allow(non_camel_case_types)]
#[derive(Clone, Copy, Debug, PartialEq, Eq, Structural)]
pub enum Gains {
    x1,
    x2,
    x4,
    x8,
    x16,
    x32,
    x64,
    x128,
}

impl Gains {
    /// The field value.
    pub open spec fn code(self) -> u8 {
        match self {
            Gains::x1 => 0b000,
            Gains::x2 => 0b001,
            Gains::x4 => 0b010,
            Gains::x8 => 0b011,
            Gains::x16 => 0b100,
            Gains::x32 => 0b101,
            Gains::x64 => 0b110,
            Gains::x128 => 0b111,
        }
    }

    pub fn bits(self) -> (r: u8)
        ensures
            r == self.code(),
    {
        match self {
            Gains::x1 => 0b000,
            Gains::x2 => 0b001,
            Gains::x4 => 0b010,
            Gains::x8 => 0b011,
            Gains::x16 => 0b100,
            Gains::x32 => 0b101,
            Gains::x64 => 0b110,
            Gains::x128 => 0b111,
        }
    }
}

/// The gain of field value `b`; values above 7 give x1.
pub open spec fn gain_of(b: u8) -> Gains {
    if b == 0b001 {
        Gains::x2
    } else if b == 0b010 {
        Gains::x4
    } else if b == 0b011 {
        Gains::x8
    } else if b == 0b100 {
        Gains::x16
    } else if b == 0b101 {
        Gains::x32
    } else if b == 0b110 {
        Gains::x64
    } else if b == 0b111 {
        Gains::x128
    } else {
        Gains::x1
    }
}

impl From<u8> for Gains {
    fn from(b: u8) -> (r: Self) {
        if b == 0b001 {
            Gains::x2
        } else if b == 0b010 {
            Gains::x4
        } else if b == 0b011 {
            Gains::x8
        } else if b == 0b100 {
            Gains::x16
        } else if b == 0b101 {
            Gains::x32
        } else if b == 0b110 {
            Gains::x64
        } else if b == 0b111 {
            Gains::x128
        } else {
            Gains::x1
        }
    }
}

impl vstd::std_specs::convert::FromSpecImpl<u8> for Gains {
    open spec fn obeys_from_spec() -> bool {
        true
    }

    open spec fn from_spec(b: u8) -> Gains {
        gain_of(b)
    }
}

/// Output data rate, in samples per second.
#[allow(non_camel_case_types)]
#[derive(Clone, Copy, Debug, PartialEq, Eq, Structural)]
pub enum ConversionRate {
    SPS_10,
    SPS_20,
    SPS_40,
    SPS_80,
    SPS_320,
}

impl ConversionRate {
    /// The field value.
    pub open spec fn code(self) -> u8 {
        match self {
            ConversionRate::SPS_10 => 0b000,
            ConversionRate::SPS_20 => 0b001,
            ConversionRate::SPS_40 => 0b010,
            ConversionRate::SPS_80 => 0b011,
            ConversionRate::SPS_320 => 0b111,
        }
    }

    pub fn bits(self) -> (r: u8)
        ensures
            r == self.code(),
    {
        match self {
            ConversionRate::SPS_10 => 0b000,
            ConversionRate::SPS_20 => 0b001,
            ConversionRate::SPS_40 => 0b010,
            ConversionRate::SPS_80 => 0b011,
            ConversionRate::SPS_320 => 0b111,
        }
    }
}

/// The rate of field value `b`; a value with no rate gives 10 samples per second.
pub open spec fn conversion_rate_of(b: u8) -> ConversionRate {
    if b == 0b001 {
        ConversionRate::SPS_20
    } else if b == 0b010 {
        ConversionRate::SPS_40
    } else if b == 0b011 {
        ConversionRate::SPS_80
    } else if b == 0b111 {
        ConversionRate::SPS_320
    } else {
        ConversionRate::SPS_10
    }
}

impl From<u8> for ConversionRate {
    fn from(b: u8) -> (r: Self) {
        if b == 0b001 {
            ConversionRate::SPS_20
        } else if b == 0b010 {
            ConversionRate::SPS_40
        } else if b == 0b011 {
            ConversionRate::SPS_80
        } else if b == 0b111 {
            ConversionRate::SPS_320
        } else {
            ConversionRate::SPS_10
        }
    }
}

impl vstd::std_specs::convert::FromSpecImpl<u8> for ConversionRate {
    open spec fn obeys_from_spec() -> bool {
        true
    }

    open spec fn from_spec(b: u8) -> ConversionRate {
        conversion_rate_of(b)
    }
}

/// Control register 1.
#[derive(Clone, Copy, Debug, PartialEq, Eq, Structural)]
pub struct CTRL1 {
    /// Conversion-ready output is active high (bit 7 clear).
    pub conversion_ready_polarity_high: bool,
    /// The data-ready pin outputs the conversion clock (bit 6).
    pub drdy_clock_output: bool,
    /// LDO voltage (bits 5 to 3).
    pub ldo_voltage: LdoVoltage,
    /// Amplifier gain (bits 2 to 0).
    pub gain_select: Gains,
}

/// The fields that control byte `b` holds.
pub open spec fn ctrl1_of(b: u8) -> CTRL1 {
    CTRL1 {
        conversion_ready_polarity_high: b & 0x80 == 0,
        drdy_clock_output: b & 0x40 != 0,
        ldo_voltage: ldo_voltage_of((b >> 3u8) & 0x07),
        gain_select: gain_of(b & 0x07),
    }
}

/// The control byte with the fields of `c`.
pub open spec fn ctrl1_byte(c: CTRL1) -> u8 {
    flag(!c.conversion_ready_polarity_high, 0x80) | flag(c.drdy_clock_output, 0x40) | ((c.ldo_voltage.code() & 0x07) << 3u8)
        | (c.gain_select.code() & 0x07)
}

impl From<u8> for CTRL1 {
    fn from(value: u8) -> (r: Self) {
        CTRL1 {
            conversion_ready_polarity_high: value & 0x80 == 0,
            drdy_clock_output: value & 0x40 != 0,
            ldo_voltage: LdoVoltage::from((value >> 3) & 0x07),
            gain_select: Gains::from(value & 0x07),
        }
    }
}

impl vstd::std_specs::convert::FromSpecImpl<u8> for CTRL1 {
    open spec fn obeys_from_spec() -> bool {
        true
    }

    open spec fn from_spec(b: u8) -> CTRL1 {
        ctrl1_of(b)
    }
}

impl From<CTRL1> for u8 {
    fn from(c: CTRL1) -> (r: u8) {
        (if c.conversion_ready_polarity_high { 0x00u8 } else { 0x80u8 }) | (if c.drdy_clock_output {
            0x40u8
        } else {
            0x00u8
        }) | ((c.ldo_voltage.bits() & 0x07) << 3) | (c.gain_select.bits() & 0x07)
    }
}

impl vstd::std_specs::convert::FromSpecImpl<CTRL1> for u8 {
    open spec fn obeys_from_spec() -> bool {
        true
    }

    open spec fn from_spec(c: CTRL1) -> u8 {
        ctrl1_byte(c)
    }
}

/// Control register 2.
#[derive(Clone, Copy, Debug, PartialEq, Eq, Structural)]
pub struct CTRL2 {
    /// Input channel 2 (B) is selected (bit 7).
    pub channel2_selected: bool,
    /// Output data rate (bits 6 to 4).
    pub conversion_rate: ConversionRate,
    /// The last calibration failed (bit 3).
    pub cal_error: bool,
    /// Calibration requested or in progress (bit 2).
    pub calibrate: bool,
    /// Calibration mode (bits 1 and 0).
    pub cal_mod: u8,
}

/// The fields that control byte `b` holds.
pub open spec fn ctrl2_of(b: u8) -> CTRL2 {
    CTRL2 {
        channel2_selected: b & 0x80 != 0,
        conversion_rate: conversion_rate_of((b >> 4u8) & 0x07),
        cal_error: b & 0x08 != 0,
        calibrate: b & 0x04 != 0,
        cal_mod: b & 0x03,
    }
}

/// The control byte with the fields of `c`; of `cal_mod` the low two bits are used.
pub open spec fn ctrl2_byte(c: CTRL2) -> u8 {
    flag(c.channel2_selected, 0x80) | ((c.conversion_rate.code() & 0x07) << 4u8) | flag(c.cal_error, 0x08)
        | flag(c.calibrate, 0x04) | (c.cal_mod & 0x03)
}

impl From<u8> for CTRL2 {
    fn from(value: u8) -> (r: Self) {
        CTRL2 {
            channel2_selected: value & 0x80 != 0,
            conversion_rate: ConversionRate::from((value >> 4) & 0x07),
            cal_error: value & 0x08 != 0,
            calibrate: value & 0x04 != 0,
            cal_mod: value & 0x03,
        }
    }
}

impl vstd::std_specs::convert::FromSpecImpl<u8> for CTRL2 {
    open spec fn obeys_from_spec() -> bool {
        true
    }

    open spec fn from_spec(b: u8) -> CTRL2 {
        ctrl2_of(b)
    }
}

impl From<CTRL2> for u8 {
    fn from(c: CTRL2) -> (r: u8) {
        (if c.channel2_selected { 0x80u8 } else { 0x00u8 }) | ((c.conversion_rate.bits() & 0x07) << 4) | (if c.cal_error {
            0x08u8
        } else {
            0x00u8
        }) | (if c.calibrate { 0x04u8 } else { 0x00u8 }) | (c.cal_mod & 0x03)
    }
}

impl vstd::std_specs::convert::FromSpecImpl<CTRL2> for u8 {
    open spec fn obeys_from_spec() -> bool {
        true
    }

    open spec fn from_spec(c: CTRL2) -> u8 {
        ctrl2_byte(c)
    }
}

/// Every three-bit field value names an LDO voltage, and every LDO voltage has one.
pub proof fn ldo_voltage_codes(b: u8, v: LdoVoltage)
    ensures
        b < 8 ==> ldo_voltage_of(b).code() == b,
        ldo_voltage_of(v.code()) == v,
        v.code() < 8,
{
}

/// Every three-bit field value names a gain, and every gain has one.
pub proof fn gain_codes(b: u8, g: Gains)
    ensures
        b < 8 ==> gain_of(b).code() == b,
        gain_of(g.code()) == g,
        g.code() < 8,
{
}

/// The field values that name a conversion rate.
pub open spec fn is_rate_code(b: u8) -> bool {
    b <= 3 || b == 7
}

/// Each rate's field value names it back.
pub proof fn conversion_rate_codes(b: u8, c: ConversionRate)
    ensures
        is_rate_code(b) ==> conversion_rate_of(b).code() == b,
        conversion_rate_of(c.code()) == c,
        is_rate_code(c.code()),
{
}

/// Decoding a control-1 byte and encoding the fields again gives the byte back, and
/// encoding fields and decoding the byte gives the fields back.
pub proof fn ctrl1_round_trip(b: u8, c: CTRL1)
    ensures
        ctrl1_byte(ctrl1_of(b)) == b,
        ctrl1_of(ctrl1_byte(c)) == c,
{
    let l: u8 = (b >> 3u8) & 0x07;
    let g: u8 = b & 0x07;
    assert((b >> 3u8) & 0x07 < 8 && b & 0x07 < 8) by (bit_vector);
    ldo_voltage_codes(l, c.ldo_voltage);
    gain_codes(g, c.gain_select);
    assert(flag(!(b & 0x80 == 0), 0x80) | flag(b & 0x40 != 0, 0x40) | ((((b >> 3u8) & 0x07) & 0x07) << 3u8)
        | ((b & 0x07) & 0x07) == b) by (bit_vector);

    let (p, d, lc, gc) = (c.conversion_ready_polarity_high, c.drdy_clock_output, c.ldo_voltage.code(), c.gain_select.code());
    assert({
        let w = flag(!p, 0x80) | flag(d, 0x40) | ((lc & 0x07) << 3u8) | (gc & 0x07);
        &&& (w & 0x80 == 0) == p
        &&& (w & 0x40 != 0) == d
        &&& (w >> 3u8) & 0x07 == lc
        &&& w & 0x07 == gc
    }) by (bit_vector)
        requires
            lc < 8,
            gc < 8,
    ;
}

/// Decoding a control-2 byte whose rate field names a rate and encoding the fields
/// again gives the byte back; encoding fields whose calibration mode fits its two bits
/// and decoding the byte gives the fields back.
pub proof fn ctrl2_round_trip(b: u8, c: CTRL2)
    ensures
        is_rate_code((b >> 4u8) & 0x07) ==> ctrl2_byte(ctrl2_of(b)) == b,
        c.cal_mod < 4 ==> ctrl2_of(ctrl2_byte(c)) == c,
{
    let r: u8 = (b >> 4u8) & 0x07;
    assert((b >> 4u8) & 0x07 < 8) by (bit_vector);
    conversion_rate_codes(r, c.conversion_rate);
    if is_rate_code(r) {
        assert(flag(b & 0x80 != 0, 0x80) | ((((b >> 4u8) & 0x07) & 0x07) << 4u8) | flag(b & 0x08 != 0, 0x08)
            | flag(b & 0x04 != 0, 0x04) | ((b & 0x03) & 0x03) == b) by (bit_vector);
    }
    let (ch, rc, e, k, m) = (c.channel2_selected, c.conversion_rate.code(), c.cal_error, c.calibrate, c.cal_mod);
    assert({
        let w = flag(ch, 0x80) | ((rc & 0x07) << 4u8) | flag(e, 0x08) | flag(k, 0x04) | (m & 0x03);
        &&& (w & 0x80 != 0) == ch
        &&& (w >> 4u8) & 0x07 == rc
        &&& (w & 0x08 != 0) == e
        &&& (w & 0x04 != 0) == k
        &&& (m < 4 ==> w & 0x03 == m)
    }) by (bit_vector)
        requires
            rc < 8,
    ;
}

} // verus!
