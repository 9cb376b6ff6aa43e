use vstd::prelude::*;
use embedded_hal::i2c::I2c;
use crate::bus::{
    appended, as_write_outcome, extends, is_register_read, lemma_extends_refl, lemma_extends_trans, lemma_push_extends,
    reads_in_order, register_write, reply, transfer_error, writes_in_order, Arbiter, BusError, Event,
};
use crate::ina237_types::{adc_configuration_word, configuration_word, Configuration, ConfigurationRegisterValues};

verus! {

/// Register indices of the power monitor.
pub enum Registers {
    Config,
    AdcConfig,
    ShuntCal,
    VShunt,
    VBus,
    DieTemp,
    Current,
    Power,
    DiagAlert,
    SOVL,
    SUVL,
    BOVL,
    BUVOL,
    TempLimit,
    PowerLimit,
    ManufacturerId,
}

impl Registers {
    pub open spec fn index(self) -> u8 {
        match self {
            Registers::Config => 0x00,
            Registers::AdcConfig => 0x01,
            Registers::ShuntCal => 0x02,
            Registers::VShunt => 0x04,
            Registers::VBus => 0x05,
            Registers::DieTemp => 0x06,
            Registers::Current => 0x07,
            Registers::Power => 0x08,
            Registers::DiagAlert => 0x09,
            Registers::SOVL => 0x0C,
            Registers::SUVL => 0x0D,
            Registers::BOVL => 0x0E,
            Registers::BUVOL => 0x0F,
            Registers::TempLimit => 0x10,
            Registers::PowerLimit => 0x11,
            Registers::ManufacturerId => 0x3E,
        }
    }

    pub fn addr(self) -> (r: u8)
        ensures
            r == self.index(),
    {
        match self {
            Registers::Config => 0x00,
            Registers::AdcConfig => 0x01,
            Registers::ShuntCal => 0x02,
            Registers::VShunt => 0x04,
            Registers::VBus => 0x05,
            Registers::DieTemp => 0x06,
            Registers::Current => 0x07,
            Registers::Power => 0x08,
            Registers::DiagAlert => 0x09,
            Registers::SOVL => 0x0C,
            Registers::SUVL => 0x0D,
            Registers::BOVL => 0x0E,
            Registers::BUVOL => 0x0F,
            Registers::TempLimit => 0x10,
            Registers::PowerLimit => 0x11,
            Registers::ManufacturerId => 0x3E,
        }
    }
}

/// The unsigned value of two big-endian bytes.
pub open spec fn be_u16(s: Seq<u8>) -> u16 {
    (s[0] as int * 256 + s[1] as int) as u16
}

/// The two's-complement value of two big-endian bytes.
pub open spec fn be_i16(s: Seq<u8>) -> i16 {
    let u = s[0] as int * 256 + s[1] as int;
    (if u >= 0x8000 { u - 0x10000 } else { u }) as i16
}

/// The two big-endian bytes of `w`.
pub open spec fn be_bytes(w: u16) -> Seq<u8> {
    seq![(w / 256) as u8, (w % 256) as u8]
}

/// `x / d` rounded toward zero.
pub open spec fn div_toward_zero(x: int, d: int) -> int {
    if x >= 0 { x / d } else { -((-x) / d) }
}

/// Bus voltage in mV: 3.125 mV per count.
pub open spec fn bus_voltage_mv(raw: i16) -> int {
    div_toward_zero(raw as int * 3125, 1000)
}

/// Shunt voltage in uV: 5 uV per count.
pub open spec fn shunt_voltage_uv(raw: i16) -> int {
    raw as int * 5
}

/// Current in uA: 100 uA per count.
pub open spec fn current_ua(raw: i16) -> int {
    raw as int * 100
}

/// Die temperature in m°C: 125 m°C per step of the upper twelve bits, 125/16 m°C per count.
pub open spec fn die_temperature_mc(raw: i16) -> int {
    div_toward_zero(raw as int * 125, 16)
}

/// One two-byte big-endian write of `words[i]` to register `registers[i]` for each `i`.
pub open spec fn word_writes(registers: Seq<u8>, words: Seq<u16>) -> Seq<(u8, Seq<u8>)> {
    Seq::new(registers.len(), |i: int| (registers[i], be_bytes(words[i])))
}

/// One snapshot of the four measurement registers, in physical units.
pub struct Measurement {
    voltage_mv: i32,
    shunt_uv: i32,
    current_ua: i32,
    temp_mc: i32,
}

impl Measurement {
    pub closed spec fn voltage_mv_spec(&self) -> int {
        self.voltage_mv as int
    }

    pub closed spec fn shunt_uv_spec(&self) -> int {
        self.shunt_uv as int
    }

    pub closed spec fn current_ua_spec(&self) -> int {
        self.current_ua as int
    }

    pub closed spec fn temp_mc_spec(&self) -> int {
        self.temp_mc as int
    }

    /// The snapshot that these raw register values stand for.
    pub open spec fn decodes(&self, vbus: i16, vshunt: i16, current: i16, dietemp: i16) -> bool {
        &&& self.voltage_mv_spec() == bus_voltage_mv(vbus)
        &&& self.shunt_uv_spec() == shunt_voltage_uv(vshunt)
        &&& self.current_ua_spec() == current_ua(current)
        &&& self.temp_mc_spec() == die_temperature_mc(dietemp)
    }

    /// Scales the raw bus-voltage, shunt-voltage, current and die-temperature readings.
    pub fn from_readings(vbus: i16, vshunt: i16, current: i16, dietemp: i16) -> (r: Measurement)
        ensures
            r.decodes(vbus, vshunt, current, dietemp),
    {
        Measurement {
            voltage_mv: scale_toward_zero(vbus, 3125, 1000),
            shunt_uv: vshunt as i32 * 5,
            current_ua: current as i32 * 100,
            temp_mc: scale_toward_zero(dietemp, 125, 16),
        }
    }

    /// Bus voltage in mV.
    pub fn voltage_mv(&self) -> (r: i32)
        ensures
            r == self.voltage_mv_spec(),
    {
        self.voltage_mv
    }

    /// Shunt voltage in uV.
    pub fn shunt_uv(&self) -> (r: i32)
        ensures
            r == self.shunt_uv_spec(),
    {
        self.shunt_uv
    }

    /// Current in uA.
    pub fn current_ua(&self) -> (r: i32)
        ensures
            r == self.current_ua_spec(),
    {
        self.current_ua
    }

    /// Die temperature in m°C.
    pub fn temp_mc(&self) -> (r: i32)
        ensures
            r == self.temp_mc_spec(),
    {
        self.temp_mc
    }
}

/// `raw * num / den`, rounded toward zero.
fn scale_toward_zero(raw: i16, num: i32, den: i32) -> (r: i32)
    requires
        0 < num <= 10000,
        0 < den,
    ensures
        r == div_toward_zero(raw as int * num as int, den as int),
{
    assert(-32768 * 10000 <= raw as int * num as int <= 32767 * 10000) by (nonlinear_arith)
        requires
            -32768 <= raw <= 32767,
            0 < num <= 10000,
    ;
    let x: i32 = raw as i32 * num;
    if x >= 0 {
        x / den
    } else {
        let m: i32 = -x;
        -(m / den)
    }
}

/// Driver of a power monitor: its configuration is all it holds; every operation goes
/// through the arbiter it is handed.
pub struct Ina237 {
    configuration: Configuration,
}

/// The bytes of `w` with the two big-endian bytes of `w` in that order.
fn word_bytes(w: u16) -> (r: Vec<u8>)
    ensures
        r@ == be_bytes(w),
{
    let hi: u8 = (w / 256) as u8;
    let lo: u8 = (w % 256) as u8;
    let r: Vec<u8> = vec![hi, lo];
    assert(r@ == be_bytes(w));
    r
}

impl Ina237 {
    /// The device's bus address.
    pub closed spec fn address(&self) -> u8 {
        self.configuration.address_spec()
    }

    /// The shunt-calibration value given at construction.
    pub closed spec fn shunt_spec(&self) -> u16 {
        self.configuration.shunt_spec()
    }

    /// `new` extends `old` by one read of the 16-bit register `register`, and `r` is the
    /// register's unsigned value or the fault of that read.
    pub open spec fn word_read(&self, old: Seq<Event>, new: Seq<Event>, register: u8, r: Result<u16, BusError>) -> bool {
        let t = appended(old, new);
        &&& extends(old, new)
        &&& t.len() == 1
        &&& is_register_read(t[0], self.address(), register, 2)
        &&& if t[0].failed() {
            r == Err::<u16, BusError>(transfer_error(t[0]))
        } else {
            r == Ok::<u16, BusError>(be_u16(reply(t[0])))
        }
    }

    pub fn new(configuration: Configuration) -> (r: Ina237)
        ensures
            r.address() == configuration.address_spec(),
            r.shunt_spec() == configuration.shunt_spec(),
    {
        Ina237 { configuration }
    }

    /// Ends the driver and hands back the configuration it was built with.
    pub fn destroy(self) -> (r: Configuration)
        ensures
            r.address_spec() == self.address(),
            r.shunt_spec() == self.shunt_spec(),
    {
        self.configuration
    }

    fn read_word<B: I2c>(&self, bus: &mut Arbiter<B>, register: Registers) -> (r: Result<u16, BusError>)
        ensures
            final(bus).is_leased() == old(bus).is_leased(),
            old(bus).is_leased() ==> r == Err::<u16, BusError>(BusError::Busy) && final(bus).log() == old(bus).log(),
            !old(bus).is_leased() ==> self.word_read(old(bus).log(), final(bus).log(), register.index(), r),
    {
        let ghost before = bus.log();
        let address: u8 = self.configuration.addr();
        let reg: u8 = register.addr();
        match bus.write_then_read(address, reg, 2) {
            Ok(v) => {
                let hi: u8 = v[0];
                let lo: u8 = v[1];
                let w: u16 = hi as u16 * 256 + lo as u16;
                proof {
                    let t = bus.log().last();
                    lemma_push_extends(before, t);
                    assert(!t.failed());
                    assert(reply(t) == v@);
                    assert(is_register_read(t, self.address(), register.index(), 2));
                    assert(be_u16(reply(t)) == w);
                }
                Ok(w)
            },
            Err(e) => {
                proof {
                    if !old(bus).is_leased() {
                        let t = bus.log().last();
                        lemma_push_extends(before, t);
                        assert(t.failed());
                        assert(is_register_read(t, self.address(), register.index(), 2));
                        assert(transfer_error(t) == e);
                    }
                }
                Err(e)
            },
        }
    }

    /// Writes `words[i]`, as two big-endian bytes, to register `registers[i]` for each `i`
    /// in order, stopping at the first write that fails.
    fn write_words<B: I2c>(&self, bus: &mut Arbiter<B>, registers: &[u8], words: &[u16]) -> (r: Result<(), BusError>)
        requires
            0 < registers@.len() == words@.len(),
        ensures
            final(bus).is_leased() == old(bus).is_leased(),
            old(bus).is_leased() ==> r == Err::<(), BusError>(BusError::Busy) && final(bus).log() == old(bus).log(),
            !old(bus).is_leased() ==> {
                let t = appended(old(bus).log(), final(bus).log());
                &&& extends(old(bus).log(), final(bus).log())
                &&& writes_in_order(self.address(), word_writes(registers@, words@), t)
                &&& if t.last().failed() { r == Err::<(), BusError>(transfer_error(t.last())) } else { r is Ok }
            },
    {
        let ghost log0 = bus.log();
        let ghost writes = word_writes(registers@, words@);
        proof {
            lemma_extends_refl(log0);
        }
        let mut i: usize = 0;
        while i < registers.len()
            invariant
                i <= registers@.len(),
                0 < registers@.len() == words@.len(),
                writes == word_writes(registers@, words@),
                bus.is_leased() == old(bus).is_leased(),
                log0 == old(bus).log(),
                old(bus).is_leased() ==> bus.log() == log0 && i == 0,
                !old(bus).is_leased() ==> extends(log0, bus.log()),
                !old(bus).is_leased() ==> appended(log0, bus.log()).len() == i,
                !old(bus).is_leased() ==> forall|j: int| 0 <= j < i ==> #[trigger] appended(log0, bus.log())[j]
                    == register_write(self.address(), writes[j].0, writes[j].1, Ok(())),
            decreases registers@.len() - i,
        {
            let ghost prev = bus.log();
            let data = word_bytes(words[i]);
            let w = bus.write_register(self.configuration.addr(), registers[i], data.as_slice());
            proof {
                if !old(bus).is_leased() {
                    lemma_push_extends(prev, bus.log().last());
                    lemma_extends_trans(log0, prev, bus.log());
                    let t = appended(log0, bus.log());
                    assert(t =~= appended(log0, prev).push(bus.log().last()));
                }
            }
            match w {
                Ok(()) => {},
                Err(e) => {
                    proof {
                        if !old(bus).is_leased() {
                            let t = appended(log0, bus.log());
                            assert forall|j: int| 0 <= j < t.len() implies #[trigger] t[j]
                                == register_write(self.address(), writes[j].0, writes[j].1, as_write_outcome(t[j])) by {
                                if j < i {
                                    assert(!t[j].failed());
                                }
                            }
                        }
                    }
                    return Err(e);
                },
            }
            i = i + 1;
        }
        proof {
            let t = appended(log0, bus.log());
            assert forall|j: int| 0 <= j < t.len() implies #[trigger] t[j]
                == register_write(self.address(), writes[j].0, writes[j].1, as_write_outcome(t[j])) by {
                assert(!t[j].failed());
            }
        }
        Ok(())
    }

    /// Writes the shunt calibration, then the configuration word, then the
    /// ADC-configuration word built from `configuration_register_values`, stopping at the
    /// first write that fails.
    pub fn initialize<B: I2c>(&self, bus: &mut Arbiter<B>, configuration_register_values: ConfigurationRegisterValues) -> (r: Result<(), BusError>)
        ensures
            final(bus).is_leased() == old(bus).is_leased(),
            old(bus).is_leased() ==> r == Err::<(), BusError>(BusError::Busy) && final(bus).log() == old(bus).log(),
            !old(bus).is_leased() ==> {
                let t = appended(old(bus).log(), final(bus).log());
                &&& extends(old(bus).log(), final(bus).log())
                &&& writes_in_order(
                    self.address(),
                    seq![
                        (Registers::ShuntCal.index(), be_bytes(self.shunt_spec())),
                        (Registers::Config.index(), be_bytes(configuration_word(configuration_register_values))),
                        (Registers::AdcConfig.index(), be_bytes(adc_configuration_word(configuration_register_values))),
                    ],
                    t,
                )
                &&& if t.last().failed() { r == Err::<(), BusError>(transfer_error(t.last())) } else { r is Ok }
            },
    {
        let registers: [u8; 3] = [Registers::ShuntCal.addr(), Registers::Config.addr(), Registers::AdcConfig.addr()];
        let words: [u16; 3] = [
            self.configuration.shunt(),
            configuration_register_values.into_configuration(),
            configuration_register_values.into_adc_configuration(),
        ];
        assert(word_writes(registers@, words@) =~= seq![
            (Registers::ShuntCal.index(), be_bytes(self.shunt_spec())),
            (Registers::Config.index(), be_bytes(configuration_word(configuration_register_values))),
            (Registers::AdcConfig.index(), be_bytes(adc_configuration_word(configuration_register_values))),
        ]);
        self.write_words(bus, &registers, &words)
    }

    /// Reads back the configuration register.
    pub fn configuration<B: I2c>(&self, bus: &mut Arbiter<B>) -> (r: Result<u16, BusError>)
        ensures
            final(bus).is_leased() == old(bus).is_leased(),
            old(bus).is_leased() ==> r == Err::<u16, BusError>(BusError::Busy) && final(bus).log() == old(bus).log(),
            !old(bus).is_leased() ==> self.word_read(old(bus).log(), final(bus).log(), Registers::Config.index(), r),
    {
        self.read_word(bus, Registers::Config)
    }

    /// Reads back the ADC-configuration register.
    pub fn adc_configuration<B: I2c>(&self, bus: &mut Arbiter<B>) -> (r: Result<u16, BusError>)
        ensures
            final(bus).is_leased() == old(bus).is_leased(),
            old(bus).is_leased() ==> r == Err::<u16, BusError>(BusError::Busy) && final(bus).log() == old(bus).log(),
            !old(bus).is_leased() ==> self.word_read(old(bus).log(), final(bus).log(), Registers::AdcConfig.index(), r),
    {
        self.read_word(bus, Registers::AdcConfig)
    }

    /// Reads back the manufacturer-ID register.
    pub fn manufacturer_id<B: I2c>(&self, bus: &mut Arbiter<B>) -> (r: Result<u16, BusError>)
        ensures
            final(bus).is_leased() == old(bus).is_leased(),
            old(bus).is_leased() ==> r == Err::<u16, BusError>(BusError::Busy) && final(bus).log() == old(bus).log(),
            !old(bus).is_leased() ==> self.word_read(old(bus).log(), final(bus).log(), Registers::ManufacturerId.index(), r),
    {
        self.read_word(bus, Registers::ManufacturerId)
    }

    /// Reads back the shunt-calibration register.
    pub fn shunt_cal<B: I2c>(&self, bus: &mut Arbiter<B>) -> (r: Result<u16, BusError>)
        ensures
            final(bus).is_leased() == old(bus).is_leased(),
            old(bus).is_leased() ==> r == Err::<u16, BusError>(BusError::Busy) && final(bus).log() == old(bus).log(),
            !old(bus).is_leased() ==> self.word_read(old(bus).log(), final(bus).log(), Registers::ShuntCal.index(), r),
    {
        self.read_word(bus, Registers::ShuntCal)
    }

    /// Reads the bus-voltage, shunt-voltage, current and die-temperature registers, in
    /// that order and stopping at the first read that fails, and scales them.
    pub fn read<B: I2c>(&self, bus: &mut Arbiter<B>) -> (r: Result<Measurement, BusError>)
        ensures
            final(bus).is_leased() == old(bus).is_leased(),
            old(bus).is_leased() ==> r == Err::<Measurement, BusError>(BusError::Busy) && final(bus).log() == old(bus).log(),
            !old(bus).is_leased() ==> {
                let t = appended(old(bus).log(), final(bus).log());
                &&& extends(old(bus).log(), final(bus).log())
                &&& reads_in_order(
                    self.address(),
                    seq![Registers::VBus.index(), Registers::VShunt.index(), Registers::Current.index(), Registers::DieTemp.index()],
                    2,
                    t,
                )
                &&& if t.last().failed() {
                    r == Err::<Measurement, BusError>(transfer_error(t.last()))
                } else {
                    &&& r is Ok
                    &&& r->Ok_0.decodes(be_i16(reply(t[0])), be_i16(reply(t[1])), be_i16(reply(t[2])), be_i16(reply(t[3])))
                }
            },
    {
        let registers: [u8; 4] = [Registers::VBus.addr(), Registers::VShunt.addr(), Registers::Current.addr(), Registers::DieTemp.addr()];
        assert(registers@ =~= seq![Registers::VBus.index(), Registers::VShunt.index(), Registers::Current.index(), Registers::DieTemp.index()]);
        let words = match self.read_words(bus, &registers) {
            Ok(words) => words,
            Err(e) => {
                return Err(e);
            },
        };
        proof {
            let t = appended(old(bus).log(), bus.log());
            lemma_signed(reply(t[0]));
            lemma_signed(reply(t[1]));
            lemma_signed(reply(t[2]));
            lemma_signed(reply(t[3]));
        }
        Ok(Measurement::from_readings(signed(words[0]), signed(words[1]), signed(words[2]), signed(words[3])))
    }

    /// Reads the two-byte register `registers[i]` for each `i` in order, stopping at the
    /// first read that fails; the words read, as unsigned big-endian values.
    fn read_words<B: I2c>(&self, bus: &mut Arbiter<B>, registers: &[u8]) -> (r: Result<Vec<u16>, BusError>)
        requires
            0 < registers@.len(),
        ensures
            final(bus).is_leased() == old(bus).is_leased(),
            old(bus).is_leased() ==> r == Err::<Vec<u16>, BusError>(BusError::Busy) && final(bus).log() == old(bus).log(),
            !old(bus).is_leased() ==> {
                let t = appended(old(bus).log(), final(bus).log());
                &&& extends(old(bus).log(), final(bus).log())
                &&& reads_in_order(self.address(), registers@, 2, t)
                &&& if t.last().failed() {
                    r == Err::<Vec<u16>, BusError>(transfer_error(t.last()))
                } else {
                    &&& r is Ok
                    &&& r->Ok_0@.len() == registers@.len()
                    &&& forall|j: int| 0 <= j < registers@.len() ==> r->Ok_0@[j] == be_u16(reply(#[trigger] t[j]))
                }
            },
    {
        let ghost log0 = bus.log();
        proof {
            lemma_extends_refl(log0);
        }
        let mut words: Vec<u16> = Vec::new();
        let mut i: usize = 0;
        while i < registers.len()
            invariant
                i <= registers@.len(),
                0 < registers@.len(),
                words@.len() == i,
                bus.is_leased() == old(bus).is_leased(),
                log0 == old(bus).log(),
                old(bus).is_leased() ==> bus.log() == log0 && i == 0,
                !old(bus).is_leased() ==> extends(log0, bus.log()),
                !old(bus).is_leased() ==> appended(log0, bus.log()).len() == i,
                !old(bus).is_leased() ==> forall|j: int| 0 <= j < i ==> is_register_read(
                    #[trigger] appended(log0, bus.log())[j],
                    self.address(),
                    registers@[j],
                    2,
                ) && !appended(log0, bus.log())[j].failed() && words@[j] == be_u16(reply(appended(log0, bus.log())[j])),
            decreases registers@.len() - i,
        {
            let ghost prev = bus.log();
            let read = bus.write_then_read(self.configuration.addr(), registers[i], 2);
            proof {
                if !old(bus).is_leased() {
                    lemma_push_extends(prev, bus.log().last());
                    lemma_extends_trans(log0, prev, bus.log());
                    let t = appended(log0, bus.log());
                    assert(t =~= appended(log0, prev).push(bus.log().last()));
                    assert(is_register_read(t[i as int], self.address(), registers@[i as int], 2));
                }
            }
            match read {
                Ok(v) => {
                    let w: u16 = v[0] as u16 * 256 + v[1] as u16;
                    words.push(w);
                },
                Err(e) => {
                    return Err(e);
                },
            }
            i = i + 1;
        }
        Ok(words)
    }
}

/// The two's-complement reading of a 16-bit word.
pub open spec fn signed_spec(w: u16) -> i16 {
    (if w >= 0x8000 { w as int - 0x10000 } else { w as int }) as i16
}

fn signed(w: u16) -> (r: i16)
    ensures
        r == signed_spec(w),
{
    if w >= 0x8000 {
        let x: i32 = w as i32 - 0x10000;
        x as i16
    } else {
        w as i16
    }
}

proof fn lemma_signed(s: Seq<u8>)
    requires
        s.len() == 2,
    ensures
        signed_spec(be_u16(s)) == be_i16(s),
{
}

/// The sign of a register reading survives scaling: a negative reading decodes to a
/// negative value, a positive one to a positive value, and zero to zero, for each of the
/// four measurements.
pub proof fn measurement_sign_preserved(raw: i16)
    ensures
        raw < 0 ==> bus_voltage_mv(raw) < 0 && shunt_voltage_uv(raw) < 0 && current_ua(raw) < 0 && die_temperature_mc(raw) < 0,
        raw > 0 ==> bus_voltage_mv(raw) > 0 && shunt_voltage_uv(raw) > 0 && current_ua(raw) > 0 && die_temperature_mc(raw) > 0,
        raw == 0 ==> bus_voltage_mv(raw) == 0 && shunt_voltage_uv(raw) == 0 && current_ua(raw) == 0 && die_temperature_mc(raw) == 0,
{
    let x = raw as int;
    if x > 0 {
        assert(x * 3125 >= 1000 && x * 125 >= 16) by (nonlinear_arith)
            requires
                x >= 1,
        ;
        assert((x * 3125) / 1000 >= 1 && (x * 125) / 16 >= 1) by (nonlinear_arith)
            requires
                x * 3125 >= 1000,
                x * 125 >= 16,
        ;
    } else if x < 0 {
        assert(-x * 3125 >= 1000 && -x * 125 >= 16) by (nonlinear_arith)
            requires
                x <= -1,
        ;
        assert((-x * 3125) / 1000 >= 1 && (-x * 125) / 16 >= 1) by (nonlinear_arith)
            requires
                -x * 3125 >= 1000,
                -x * 125 >= 16,
        ;
        assert(-(x * 3125) == -x * 3125 && -(x * 125) == -x * 125);
    }
}

/// `v` is `x / d` cut toward zero: `v * d` lies on the same side of zero as `x`, at most
/// `x` in size, and less than `d` away from it.
pub open spec fn cut_toward_zero(x: int, d: int, v: int) -> bool {
    &&& x >= 0 ==> 0 <= v * d <= x < v * d + d
    &&& x < 0 ==> v * d - d < x <= v * d <= 0
}

proof fn lemma_div_toward_zero(x: int, d: int)
    requires
        d > 0,
    ensures
        cut_toward_zero(x, d, div_toward_zero(x, d)),
{
    let y = if x >= 0 { x } else { -x };
    let q = y / d;
    vstd::arithmetic::div_mod::lemma_fundamental_div_mod(y, d);
    vstd::arithmetic::div_mod::lemma_mod_bound(y, d);
    vstd::arithmetic::div_mod::lemma_div_pos_is_pos(y, d);
    assert(d * q == q * d) by (nonlinear_arith);
    assert(0 <= q * d) by (nonlinear_arith)
        requires
            q >= 0,
            d > 0,
    ;
    assert((-q) * d == -(q * d)) by (nonlinear_arith);
}

/// Each measurement is its raw reading times the register's scale factor: exactly for
/// the shunt voltage (5 uV per count) and the current (100 uA per count); for the bus
/// voltage (3.125 mV per count) and the die temperature (125/16 m°C per count), whose
/// factors are not whole numbers, the product cut toward zero.
pub proof fn measurement_scaling(raw: i16)
    ensures
        cut_toward_zero(raw as int * 3125, 1000, bus_voltage_mv(raw)),
        shunt_voltage_uv(raw) == raw as int * 5,
        current_ua(raw) == raw as int * 100,
        cut_toward_zero(raw as int * 125, 16, die_temperature_mc(raw)),
{
    lemma_div_toward_zero(raw as int * 3125, 1000);
    lemma_div_toward_zero(raw as int * 125, 16);
}

} // verus!
