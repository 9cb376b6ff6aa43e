use vstd::prelude::*;
use embedded_hal::delay::DelayNs;
use embedded_hal::i2c::I2c;
use crate::bus::{
    appended, as_write_outcome, extends, is_register_read, lemma_extends_refl, lemma_extends_trans, lemma_push_extends, register_write,
    reply, transfer_error, writes_in_order, Arbiter, BusError, Event,
};
use crate::nau7802_registers::{
    ctrl1_byte, ctrl1_of, ctrl2_byte, ctrl2_of, pu_ctrl_byte, pu_ctrl_of, pu_ctrl_round_trip, Gains, LdoVoltage, Registers, CALS_MASK, CTRL1, CTRL2, PUR_MASK, PU_CTRL,
};

verus! {

/// Bus address of the ADC.
pub const I2C_ADDR: u8 = 0x2a;

/// Number of status reads a poll makes before it gives up.
pub const POLL_ATTEMPTS: u32 = 50;

/// Milliseconds waited before each status read of a poll.
pub const POLL_INTERVAL_MS: u32 = 20;

/// Why an ADC operation failed.
#[derive(Debug, Clone, Copy, PartialEq, Eq)]
pub enum Error {
    /// The bus was leased elsewhere, or the transport reported a fault.
    Bus(BusError),
    /// No new conversion result is available.
    DataNotReady,
    /// The power-up-ready flag never came up; the last power-up control byte read.
    PowerUpTimeout(u8),
    /// The calibration never finished; the last control-2 byte read.
    CalibrationTimeout(u8),
}

/// One of the two input channels.
#[derive(Debug, Clone, Copy, PartialEq, Eq, Structural)]
pub enum AdcChannel {
    A,
    B,
}

/// The error a caller sees for the failed transfer `t`.
pub open spec fn bus_error(t: Event) -> Error {
    Error::Bus(transfer_error(t))
}

/// The first byte that read transfer `t` brought back.
pub open spec fn byte(t: Event) -> u8 {
    reply(t)[0]
}

/// `t` writes the single byte `value` to register `register` at `address`.
pub open spec fn is_byte_write(t: Event, address: u8, register: u8, value: u8) -> bool {
    t == register_write(address, register, seq![value], as_write_outcome(t))
}

/// `new` is `old` with one read of the one-byte register `register` at `address`
/// appended.
pub open spec fn single_read(address: u8, old: Seq<Event>, new: Seq<Event>, register: u8) -> bool {
    &&& extends(old, new)
    &&& appended(old, new).len() == 1
    &&& is_register_read(new.last(), address, register, 1)
}

/// The byte that the read `t` brought back, or its fault.
pub open spec fn read_result(t: Event) -> Result<u8, Error> {
    if t.failed() { Err(bus_error(t)) } else { Ok(byte(t)) }
}

/// `new` is `old` with a read of `register` at `address` and, when that read succeeded,
/// a write of `update(byte read)` back to it appended; `r` is the fault of the first
/// transfer that failed, if any.
pub open spec fn read_modify_write(
    address: u8,
    old: Seq<Event>,
    new: Seq<Event>,
    register: u8,
    update: spec_fn(u8) -> u8,
    r: Result<(), Error>,
) -> bool {
    let t = appended(old, new);
    &&& extends(old, new)
    &&& 1 <= t.len() <= 2
    &&& is_register_read(t[0], address, register, 1)
    &&& if t[0].failed() {
        t.len() == 1 && r == Err::<(), Error>(bus_error(t[0]))
    } else {
        &&& t.len() == 2
        &&& is_byte_write(t[1], address, register, update(byte(t[0])))
        &&& r == last_write_result(t)
    }
}

/// The read `t` shows the awaited state: the bits `mask` of the byte read are not all
/// clear when `set` holds, and all clear otherwise.
pub open spec fn shows(t: Event, mask: u8, set: bool) -> bool {
    (byte(t) & mask != 0) == set
}

/// The wait before each status read of a poll: `POLL_INTERVAL_MS`, with no lease
/// outstanding.
pub open spec fn poll_wait() -> Event {
    Event::Wait { ms: POLL_INTERVAL_MS as nat, leased: false }
}

/// Status read number `i` (from 0) of the poll `t`, which comes right after its wait.
pub open spec fn poll_read(t: Seq<Event>, i: int) -> Event {
    t[2 * i + 1]
}

/// `t` polls register `register` at `address` for the state `shows(_, mask, set)`: at
/// most `POLL_ATTEMPTS` reads, each right after a `poll_wait`; every read but the last
/// succeeded without showing the state, and the last one failed, showed it, or was read
/// number `POLL_ATTEMPTS`.
pub open spec fn poll_run(address: u8, register: u8, mask: u8, set: bool, t: Seq<Event>) -> bool {
    let n = t.len() / 2;
    &&& t.len() == 2 * n
    &&& 0 < n <= POLL_ATTEMPTS
    &&& forall|i: int| 0 <= i < n ==> t[2 * i] == poll_wait() && is_register_read(#[trigger] poll_read(t, i), address, register, 1)
    &&& forall|i: int| 0 <= i < n - 1 ==> !(#[trigger] poll_read(t, i)).failed() && !shows(poll_read(t, i), mask, set)
    &&& t.last().failed() || shows(t.last(), mask, set) || n == POLL_ATTEMPTS
}

/// How the poll `t` ended: the fault of its last read, or whether the last read showed the
/// awaited state together with the byte it read.
pub open spec fn poll_result(t: Seq<Event>, mask: u8, set: bool) -> Result<(bool, u8), Error> {
    if t.last().failed() { Err(bus_error(t.last())) } else { Ok((shows(t.last(), mask, set), byte(t.last()))) }
}

/// Power-up control byte that resets the registers.
pub open spec fn reset_byte() -> u8 {
    pu_ctrl_byte(pu_ctrl_of(0x01))
}

/// Power-up control byte that ends the reset and powers up the digital part.
pub open spec fn digital_power_up_byte() -> u8 {
    pu_ctrl_byte((PU_CTRL { PUD: true, ..pu_ctrl_of(0x00) }))
}

/// Power-up control byte that turns the internal LDO on, keeps the internal
/// oscillator, and powers up the analog and digital parts.
pub open spec fn analog_power_up_byte() -> u8 {
    pu_ctrl_byte((PU_CTRL { AVDDS: true, PUA: true, PUD: true, ..pu_ctrl_of(0x00) }))
}

/// `analog_power_up_byte` with the cycle-start flag set as well: conversions begin.
pub open spec fn start_byte() -> u8 {
    pu_ctrl_byte((PU_CTRL { AVDDS: true, CS: true, PUA: true, PUD: true, ..pu_ctrl_of(0x00) }))
}

/// How a wait for calibration that made the poll `t` ends.
pub open spec fn calibration_result(t: Seq<Event>) -> Result<(), Error> {
    match poll_result(t, CALS_MASK, false) {
        Err(e) => Err(e),
        Ok((true, _)) => Ok(()),
        Ok((false, s)) => Err(Error::CalibrationTimeout(s)),
    }
}

/// `t` writes `value` to control register 2 at `address` and, when that write succeeded,
/// waits for calibration; `r` is how it ended.
pub open spec fn write_then_wait(address: u8, value: u8, t: Seq<Event>, r: Result<(), Error>) -> bool {
    &&& t.len() >= 1
    &&& is_byte_write(t[0], address, Registers::CTRL2.index(), value)
    &&& if t[0].failed() {
        t.len() == 1 && r == Err::<(), Error>(bus_error(t[0]))
    } else {
        &&& poll_run(address, Registers::CTRL2.index(), CALS_MASK, false, t.subrange(1, t.len() as int))
        &&& r == calibration_result(t.subrange(1, t.len() as int))
    }
}

/// How a run of writes `t` ends: the fault of its last write, if that failed.
pub open spec fn last_write_result(t: Seq<Event>) -> Result<(), Error> {
    if t.last().failed() { Err(bus_error(t.last())) } else { Ok(()) }
}

/// The writes that start a power-up: register reset, then digital power-up.
pub open spec fn power_up_head() -> Seq<(u8, Seq<u8>)> {
    seq![(Registers::PU_CTRL.index(), seq![reset_byte()]), (Registers::PU_CTRL.index(), seq![digital_power_up_byte()])]
}

/// The writes that end a power-up: analog power-up, then conversion start.
pub open spec fn power_up_tail() -> Seq<(u8, Seq<u8>)> {
    seq![(Registers::PU_CTRL.index(), seq![analog_power_up_byte()]), (Registers::PU_CTRL.index(), seq![start_byte()])]
}

/// `t` is what a power-up of the ADC at `address` sends, and `r` how it ends: the two
/// head writes, stopping at a fault; then a poll of the power-up-ready flag, ending the
/// power-up with its fault or with `PowerUpTimeout` and the last status byte unless the
/// flag came up; then the two tail writes, stopping at a fault.
pub open spec fn power_up_trace(address: u8, t: Seq<Event>, r: Result<(), Error>) -> bool {
    let pu = Registers::PU_CTRL.index();
    if t.len() <= 2 && (t.len() < 2 || t.last().failed()) {
        writes_in_order(address, power_up_head(), t) && t.last().failed() && r == last_write_result(t)
    } else {
        &&& t.len() > 2
        &&& writes_in_order(address, power_up_head(), t.subrange(0, 2))
        &&& !t[1].failed()
        &&& exists|n: int| {
            &&& 0 <= n
            &&& 2 + n <= t.len()
            &&& #[trigger] poll_run(address, pu, PUR_MASK, true, t.subrange(2, 2 + n))
            &&& match poll_result(t.subrange(2, 2 + n), PUR_MASK, true) {
                Err(e) => t.len() == 2 + n && r == Err::<(), Error>(e),
                Ok((false, s)) => t.len() == 2 + n && r == Err::<(), Error>(Error::PowerUpTimeout(s)),
                Ok((true, _)) => {
                    &&& writes_in_order(address, power_up_tail(), t.subrange(2 + n, t.len() as int))
                    &&& r == last_write_result(t)
                },
            }
        }
    }
}

/// `t` is a power-up that gave up: the two head writes, then exactly `POLL_ATTEMPTS`
/// status reads, each right after a `poll_wait`, none of which succeeded with the
/// power-up-ready flag set; nothing after them.
pub open spec fn power_up_timed_out(address: u8, t: Seq<Event>) -> bool {
    let p = t.subrange(2, t.len() as int);
    &&& t.len() == 2 + 2 * POLL_ATTEMPTS
    &&& poll_run(address, Registers::PU_CTRL.index(), PUR_MASK, true, p)
    &&& forall|i: int| 0 <= i < POLL_ATTEMPTS ==> !(#[trigger] poll_read(p, i)).failed() && !shows(poll_read(p, i), PUR_MASK, true)
}

proof fn lemma_power_up_head_fault(address: u8, h: Seq<Event>, r: Result<(), Error>)
    requires
        writes_in_order(address, power_up_head(), h),
        r == last_write_result(h),
        r is Err,
    ensures
        power_up_trace(address, h, r),
{
}

proof fn lemma_power_up_poll_end(address: u8, h: Seq<Event>, p: Seq<Event>, r: Result<(), Error>)
    requires
        writes_in_order(address, power_up_head(), h),
        last_write_result(h) is Ok,
        poll_run(address, Registers::PU_CTRL.index(), PUR_MASK, true, p),
        match poll_result(p, PUR_MASK, true) {
            Err(e) => r == Err::<(), Error>(e),
            Ok((false, s)) => r == Err::<(), Error>(Error::PowerUpTimeout(s)),
            Ok((true, _)) => false,
        },
    ensures
        power_up_trace(address, h + p, r),
        (r matches Err(Error::PowerUpTimeout(_))) ==> power_up_timed_out(address, h + p),
{
    let t = h + p;
    assert(h.len() == 2);
    assert(t.subrange(0, 2) =~= h);
    assert(t.subrange(2, 2 + p.len() as int) =~= p);
    assert(t.last() == p.last());
    assert(t.subrange(2, t.len() as int) =~= p);
}

proof fn lemma_power_up_done(address: u8, h: Seq<Event>, p: Seq<Event>, w: Seq<Event>, r: Result<(), Error>)
    requires
        writes_in_order(address, power_up_head(), h),
        last_write_result(h) is Ok,
        poll_run(address, Registers::PU_CTRL.index(), PUR_MASK, true, p),
        poll_result(p, PUR_MASK, true) matches Ok((true, _)),
        writes_in_order(address, power_up_tail(), w),
        r == last_write_result(w),
    ensures
        power_up_trace(address, h + p + w, r),
{
    let t = h + p + w;
    assert(h.len() == 2);
    assert(t.subrange(0, 2) =~= h);
    assert(t.subrange(2, 2 + p.len() as int) =~= p);
    assert(t.subrange(2 + p.len() as int, t.len() as int) =~= w);
    assert(t.last() == w.last());
}

/// One single-byte write for each byte of `data`, to the registers from `first` upward.
pub open spec fn consecutive_writes(first: u8, data: Seq<u8>) -> Seq<(u8, Seq<u8>)> {
    Seq::new(data.len(), |i: int| ((first + i) as u8, seq![data[i]]))
}

/// The three big-endian two's-complement bytes of the 24-bit value `v`.
pub open spec fn i24_be_bytes(v: int) -> Seq<u8> {
    let u = if v < 0 { v + 0x100_0000 } else { v };
    seq![(u / 0x1_0000) as u8, ((u / 0x100) % 0x100) as u8, (u % 0x100) as u8]
}

/// The four big-endian two's-complement bytes of the 32-bit value `v`.
pub open spec fn i32_be_bytes(v: int) -> Seq<u8> {
    let u = if v < 0 { v + 0x1_0000_0000 } else { v };
    seq![(u / 0x100_0000) as u8, ((u / 0x1_0000) % 0x100) as u8, ((u / 0x100) % 0x100) as u8, (u % 0x100) as u8]
}

/// The 24-bit two's-complement value of three big-endian bytes.
pub open spec fn i24_value(s: Seq<u8>) -> int {
    let u = s[0] as int * 0x1_0000 + s[1] as int * 0x100 + s[2] as int;
    if s[0] >= 0x80 { u - 0x100_0000 } else { u }
}

/// First of the three offset-calibration registers of `channel`, most significant byte first.
pub open spec fn offset_register(channel: AdcChannel) -> u8 {
    match channel {
        AdcChannel::A => Registers::OCAL1_B2.index(),
        AdcChannel::B => Registers::OCAL2_B2.index(),
    }
}

/// First of the four gain-calibration registers of `channel`, most significant byte first.
pub open spec fn gain_register(channel: AdcChannel) -> u8 {
    match channel {
        AdcChannel::A => Registers::GCAL1_B3.index(),
        AdcChannel::B => Registers::GCAL2_B3.index(),
    }
}

/// Driver of the ADC. It holds the device's bus address alone: every setting lives in
/// the device and is read from it each time.
pub struct Nau7802 {
    address: u8,
}

impl Nau7802 {
    pub closed spec fn address(&self) -> u8 {
        self.address
    }

    /// A driver for the ADC at its fixed bus address.
    pub fn new() -> (r: Nau7802)
        ensures
            r.address() == I2C_ADDR,
    {
        Nau7802 { address: I2C_ADDR }
    }

    fn read_register<B: I2c>(&self, bus: &mut Arbiter<B>, register: Registers) -> (r: Result<u8, Error>)
        ensures
            final(bus).is_leased() == old(bus).is_leased(),
            old(bus).is_leased() ==> r == Err::<u8, Error>(Error::Bus(BusError::Busy)) && final(bus).log() == old(bus).log(),
            !old(bus).is_leased() ==> single_read(self.address(), old(bus).log(), final(bus).log(), register.index()),
            !old(bus).is_leased() ==> r == read_result(final(bus).log().last()),
    {
        let ghost before = bus.log();
        match bus.write_then_read(self.address, register.addr(), 1) {
            Ok(v) => {
                proof {
                    let t = bus.log().last();
                    lemma_push_extends(before, t);
                    assert(is_register_read(t, self.address(), register.index(), 1));
                }
                Ok(v[0])
            },
            Err(e) => {
                proof {
                    if !old(bus).is_leased() {
                        let t = bus.log().last();
                        lemma_push_extends(before, t);
                        assert(is_register_read(t, self.address(), register.index(), 1));
                        assert(transfer_error(t) == e);
                    }
                }
                Err(Error::Bus(e))
            },
        }
    }

    fn write_register<B: I2c>(&self, bus: &mut Arbiter<B>, register: Registers, value: u8) -> (r: Result<(), Error>)
        ensures
            final(bus).is_leased() == old(bus).is_leased(),
            old(bus).is_leased() ==> r == Err::<(), Error>(Error::Bus(BusError::Busy)) && final(bus).log() == old(bus).log(),
            !old(bus).is_leased() ==> {
                let t = appended(old(bus).log(), final(bus).log());
                &&& extends(old(bus).log(), final(bus).log())
                &&& t.len() == 1
                &&& is_byte_write(t[0], self.address(), register.index(), value)
                &&& r == last_write_result(t)
            },
    {
        let ghost before = bus.log();
        let data: Vec<u8> = vec![value];
        assert(data@ == seq![value]);
        let r = bus.write_register(self.address, register.addr(), data.as_slice());
        proof {
            if !old(bus).is_leased() {
                let t = bus.log().last();
                lemma_push_extends(before, t);
            }
        }
        match r {
            Ok(u) => Ok(u),
            Err(e) => Err(Error::Bus(e)),
        }
    }

    /// A new conversion result is ready: the conversion-ready flag of the power-up
    /// control register is set.
    pub fn is_data_ready<B: I2c>(&self, bus: &mut Arbiter<B>) -> (r: Result<bool, Error>)
        ensures
            final(bus).is_leased() == old(bus).is_leased(),
            old(bus).is_leased() ==> r == Err::<bool, Error>(Error::Bus(BusError::Busy)) && final(bus).log() == old(bus).log(),
            !old(bus).is_leased() ==> single_read(self.address(), old(bus).log(), final(bus).log(), Registers::PU_CTRL.index()),
            !old(bus).is_leased() ==> r == match read_result(final(bus).log().last()) {
                Ok(v) => Ok::<bool, Error>(pu_ctrl_of(v).CR),
                Err(e) => Err(e),
            },
    {
        match self.pu_ctrl(bus) {
            Ok(p) => Ok(p.CR),
            Err(e) => Err(e),
        }
    }

    /// The chip revision: the low four bits of the revision register.
    pub fn revision_id<B: I2c>(&self, bus: &mut Arbiter<B>) -> (r: Result<u8, Error>)
        ensures
            final(bus).is_leased() == old(bus).is_leased(),
            old(bus).is_leased() ==> r == Err::<u8, Error>(Error::Bus(BusError::Busy)) && final(bus).log() == old(bus).log(),
            !old(bus).is_leased() ==> single_read(self.address(), old(bus).log(), final(bus).log(), Registers::DEVICE_REVISION.index()),
            !old(bus).is_leased() ==> r == match read_result(final(bus).log().last()) {
                Ok(v) => Ok::<u8, Error>(v & 0x0F),
                Err(e) => Err(e),
            },
    {
        let b = self.read_register(bus, Registers::DEVICE_REVISION);
        match b {
            Ok(v) => Ok(v & 0x0F),
            Err(e) => Err(e),
        }
    }

    /// Reads and decodes the power-up control register.
    fn pu_ctrl<B: I2c>(&self, bus: &mut Arbiter<B>) -> (r: Result<PU_CTRL, Error>)
        ensures
            final(bus).is_leased() == old(bus).is_leased(),
            old(bus).is_leased() ==> r == Err::<PU_CTRL, Error>(Error::Bus(BusError::Busy)) && final(bus).log() == old(bus).log(),
            !old(bus).is_leased() ==> single_read(self.address(), old(bus).log(), final(bus).log(), Registers::PU_CTRL.index()),
            !old(bus).is_leased() ==> r == match read_result(final(bus).log().last()) {
                Ok(v) => Ok::<PU_CTRL, Error>(pu_ctrl_of(v)),
                Err(e) => Err(e),
            },
    {
        match self.read_register(bus, Registers::PU_CTRL) {
            Ok(v) => Ok(PU_CTRL::from(v)),
            Err(e) => Err(e),
        }
    }

    /// Reads and decodes the control-1 register.
    pub fn ctrl1<B: I2c>(&self, bus: &mut Arbiter<B>) -> (r: Result<CTRL1, Error>)
        ensures
            final(bus).is_leased() == old(bus).is_leased(),
            old(bus).is_leased() ==> r == Err::<CTRL1, Error>(Error::Bus(BusError::Busy)) && final(bus).log() == old(bus).log(),
            !old(bus).is_leased() ==> single_read(self.address(), old(bus).log(), final(bus).log(), Registers::CTRL1.index()),
            !old(bus).is_leased() ==> r == match read_result(final(bus).log().last()) {
                Ok(v) => Ok::<CTRL1, Error>(ctrl1_of(v)),
                Err(e) => Err(e),
            },
    {
        match self.read_register(bus, Registers::CTRL1) {
            Ok(v) => Ok(CTRL1::from(v)),
            Err(e) => Err(e),
        }
    }

    /// Reads and decodes the control-2 register.
    pub fn ctrl2<B: I2c>(&self, bus: &mut Arbiter<B>) -> (r: Result<CTRL2, Error>)
        ensures
            final(bus).is_leased() == old(bus).is_leased(),
            old(bus).is_leased() ==> r == Err::<CTRL2, Error>(Error::Bus(BusError::Busy)) && final(bus).log() == old(bus).log(),
            !old(bus).is_leased() ==> single_read(self.address(), old(bus).log(), final(bus).log(), Registers::CTRL2.index()),
            !old(bus).is_leased() ==> r == match read_result(final(bus).log().last()) {
                Ok(v) => Ok::<CTRL2, Error>(ctrl2_of(v)),
                Err(e) => Err(e),
            },
    {
        match self.read_register(bus, Registers::CTRL2) {
            Ok(v) => Ok(CTRL2::from(v)),
            Err(e) => Err(e),
        }
    }

    /// Turns the internal LDO on: sets the analog-supply flag of the power-up control register, leaving the other flags as read.
    pub fn enable_ldo<B: I2c>(&self, bus: &mut Arbiter<B>) -> (r: Result<(), Error>)
        ensures
            final(bus).is_leased() == old(bus).is_leased(),
            old(bus).is_leased() ==> r == Err::<(), Error>(Error::Bus(BusError::Busy)) && final(bus).log() == old(bus).log(),
            !old(bus).is_leased() ==> read_modify_write(
                self.address(),
                old(bus).log(),
                final(bus).log(),
                Registers::PU_CTRL.index(),
                |b: u8| pu_ctrl_byte((PU_CTRL { AVDDS: true, ..pu_ctrl_of(b) })),
                r,
            ),
    {
        let ghost log0 = bus.log();
        let mut v = match self.pu_ctrl(bus) {
            Ok(v) => v,
            Err(e) => {
                return Err(e);
            },
        };
        v.AVDDS = true;
        let ghost log1 = bus.log();
        let r = self.pu_ctrl_write(bus, &v);
        proof {
            lemma_extends_trans(log0, log1, bus.log());
        }
        r
    }

    /// Sets the LDO voltage field of control register 1, leaving the other fields as read.
    pub fn set_ldo_voltage<B: I2c>(&self, bus: &mut Arbiter<B>, ldo_voltage: LdoVoltage) -> (r: Result<(), Error>)
        ensures
            final(bus).is_leased() == old(bus).is_leased(),
            old(bus).is_leased() ==> r == Err::<(), Error>(Error::Bus(BusError::Busy)) && final(bus).log() == old(bus).log(),
            !old(bus).is_leased() ==> read_modify_write(
                self.address(),
                old(bus).log(),
                final(bus).log(),
                Registers::CTRL1.index(),
                |b: u8| ctrl1_byte((CTRL1 { ldo_voltage, ..ctrl1_of(b) })),
                r,
            ),
    {
        let ghost log0 = bus.log();
        let mut v = match self.ctrl1(bus) {
            Ok(v) => v,
            Err(e) => {
                return Err(e);
            },
        };
        v.ldo_voltage = ldo_voltage;
        let ghost log1 = bus.log();
        let r = self.ctrl1_write(bus, v);
        proof {
            lemma_extends_trans(log0, log1, bus.log());
        }
        r
    }

    /// Sets the gain field of control register 1, leaving the other fields as read.
    pub fn set_gain<B: I2c>(&self, bus: &mut Arbiter<B>, gain: Gains) -> (r: Result<(), Error>)
        ensures
            final(bus).is_leased() == old(bus).is_leased(),
            old(bus).is_leased() ==> r == Err::<(), Error>(Error::Bus(BusError::Busy)) && final(bus).log() == old(bus).log(),
            !old(bus).is_leased() ==> read_modify_write(
                self.address(),
                old(bus).log(),
                final(bus).log(),
                Registers::CTRL1.index(),
                |b: u8| ctrl1_byte((CTRL1 { gain_select: gain, ..ctrl1_of(b) })),
                r,
            ),
    {
        let ghost log0 = bus.log();
        let mut v = match self.ctrl1(bus) {
            Ok(v) => v,
            Err(e) => {
                return Err(e);
            },
        };
        v.gain_select = gain;
        let ghost log1 = bus.log();
        let r = self.ctrl1_write(bus, v);
        proof {
            lemma_extends_trans(log0, log1, bus.log());
        }
        r
    }

    /// Reads `register` after each wait of `POLL_INTERVAL_MS` until it shows the state
    /// `shows(_, mask, set)`, at most `POLL_ATTEMPTS` times. The bus is leased for each
    /// read alone, never across a wait; while a lease is outstanding elsewhere nothing
    /// is waited for or read.
    fn poll<B: I2c, D: DelayNs>(&self, bus: &mut Arbiter<B>, delay: &mut D, register: Registers, mask: u8, set: bool) -> (r: Result<(bool, u8), Error>)
        ensures
            final(bus).is_leased() == old(bus).is_leased(),
            old(bus).is_leased() ==> r == Err::<(bool, u8), Error>(Error::Bus(BusError::Busy)) && final(bus).log() == old(bus).log(),
            !old(bus).is_leased() ==> {
                let t = appended(old(bus).log(), final(bus).log());
                &&& extends(old(bus).log(), final(bus).log())
                &&& poll_run(self.address(), register.index(), mask, set, t)
                &&& r == poll_result(t, mask, set)
            },
    {
        if bus.leased() {
            return Err(Error::Bus(BusError::Busy));
        }
        let ghost log0 = bus.log();
        let mut attempts: u32 = 0;
        proof {
            lemma_extends_refl(log0);
        }
        loop
            invariant
                attempts < POLL_ATTEMPTS,
                !bus.is_leased(),
                !old(bus).is_leased(),
                log0 == old(bus).log(),
                extends(log0, bus.log()),
                appended(log0, bus.log()).len() == 2 * attempts,
                forall|i: int| 0 <= i < attempts ==> appended(log0, bus.log())[2 * i] == poll_wait() && is_register_read(
                    #[trigger] poll_read(appended(log0, bus.log()), i),
                    self.address(),
                    register.index(),
                    1,
                ),
                forall|i: int| 0 <= i < attempts ==> !(#[trigger] poll_read(appended(log0, bus.log()), i)).failed()
                    && !shows(poll_read(appended(log0, bus.log()), i), mask, set),
            decreases POLL_ATTEMPTS - attempts,
        {
            let ghost prev = bus.log();
            bus.pause(delay, POLL_INTERVAL_MS);
            let ghost waited = bus.log();
            let b = self.read_register(bus, register);
            proof {
                lemma_push_extends(prev, waited.last());
                lemma_extends_trans(log0, prev, waited);
                lemma_extends_trans(log0, waited, bus.log());
                let t0 = appended(log0, prev);
                let t = appended(log0, bus.log());
                assert(t =~= t0.push(poll_wait()).push(bus.log().last()));
                assert(poll_read(t, attempts as int) == bus.log().last());
                assert forall|i: int| 0 <= i < attempts implies t[2 * i] == t0[2 * i] && #[trigger] poll_read(t, i) == poll_read(t0, i) by {}
            }
            let b: u8 = match b {
                Ok(b) => b,
                Err(e) => {
                    return Err(e);
                },
            };
            attempts = attempts + 1;
            if (b & mask != 0) == set {
                return Ok((true, b));
            }
            if attempts == POLL_ATTEMPTS {
                return Ok((false, b));
            }
        }
    }

    fn pu_ctrl_write<B: I2c>(&self, bus: &mut Arbiter<B>, pu_ctrl: &PU_CTRL) -> (r: Result<(), Error>)
        ensures
            final(bus).is_leased() == old(bus).is_leased(),
            old(bus).is_leased() ==> r == Err::<(), Error>(Error::Bus(BusError::Busy)) && final(bus).log() == old(bus).log(),
            !old(bus).is_leased() ==> {
                let t = appended(old(bus).log(), final(bus).log());
                &&& extends(old(bus).log(), final(bus).log())
                &&& t.len() == 1
                &&& is_byte_write(t[0], self.address(), Registers::PU_CTRL.index(), pu_ctrl_byte(*pu_ctrl))
                &&& r == last_write_result(t)
            },
    {
        self.write_register(bus, Registers::PU_CTRL, u8::from(*pu_ctrl))
    }

    /// Writes `first` and then, when that succeeded, `second` to the power-up control
    /// register.
    fn pu_ctrl_write_pair<B: I2c>(&self, bus: &mut Arbiter<B>, first: &PU_CTRL, second: &PU_CTRL) -> (r: Result<(), Error>)
        ensures
            final(bus).is_leased() == old(bus).is_leased(),
            old(bus).is_leased() ==> r == Err::<(), Error>(Error::Bus(BusError::Busy)) && final(bus).log() == old(bus).log(),
            !old(bus).is_leased() ==> {
                let t = appended(old(bus).log(), final(bus).log());
                let pu = Registers::PU_CTRL.index();
                &&& extends(old(bus).log(), final(bus).log())
                &&& writes_in_order(self.address(), seq![(pu, seq![pu_ctrl_byte(*first)]), (pu, seq![pu_ctrl_byte(*second)])], t)
                &&& r == last_write_result(t)
            },
    {
        let ghost log0 = bus.log();
        let ghost pu = Registers::PU_CTRL.index();
        let ghost writes = seq![(pu, seq![pu_ctrl_byte(*first)]), (pu, seq![pu_ctrl_byte(*second)])];
        let r0 = self.pu_ctrl_write(bus, first);
        if r0.is_err() {
            proof {
                if !old(bus).is_leased() {
                    let t = appended(log0, bus.log());
                    assert(t[0] == register_write(self.address(), writes[0].0, writes[0].1, as_write_outcome(t[0])));
                }
            }
            return r0;
        }
        let ghost log1 = bus.log();
        let r1 = self.pu_ctrl_write(bus, second);
        proof {
            lemma_extends_trans(log0, log1, bus.log());
            let t = appended(log0, bus.log());
            assert(t =~= appended(log0, log1) + appended(log1, bus.log()));
            assert(t[0] == register_write(self.address(), writes[0].0, writes[0].1, as_write_outcome(t[0])));
            assert(t[1] == register_write(self.address(), writes[1].0, writes[1].1, as_write_outcome(t[1])));
            if !old(bus).is_leased() {
                assert(!t[0].failed());
                assert(t.len() == 2);
                assert(t.last() == appended(log1, bus.log())[0]);
                assert(writes_in_order(self.address(), writes, t));
                assert(r1 == last_write_result(t));
            }
        }
        r1
    }

    /// Resets the device and powers it up: a register reset, then the digital power-up
    /// request, then up to `POLL_ATTEMPTS` reads of the power-up-ready flag, one every
    /// `POLL_INTERVAL_MS`; once it is set, the LDO and the analog part are powered up and
    /// conversions started. When the flag never comes up the result is
    /// `PowerUpTimeout` with the last status byte read.
    pub fn initialize<B: I2c, D: DelayNs>(&self, bus: &mut Arbiter<B>, delay: &mut D) -> (r: Result<(), Error>)
        ensures
            final(bus).is_leased() == old(bus).is_leased(),
            old(bus).is_leased() ==> r == Err::<(), Error>(Error::Bus(BusError::Busy)) && final(bus).log() == old(bus).log(),
            !old(bus).is_leased() ==> extends(old(bus).log(), final(bus).log()),
            !old(bus).is_leased() ==> power_up_trace(self.address(), appended(old(bus).log(), final(bus).log()), r),
            !old(bus).is_leased() && (r matches Err(Error::PowerUpTimeout(_))) ==> power_up_timed_out(
                self.address(),
                appended(old(bus).log(), final(bus).log()),
            ),
    {
        let ghost log0 = bus.log();
        let reset = PU_CTRL::reset(true);
        let mut cfg = PU_CTRL::reset(false);
        cfg.PUD = true;
        proof {
            pu_ctrl_round_trip(0x01, reset);
        }
        let r0 = self.pu_ctrl_write_pair(bus, &reset, &cfg);
        let ghost log1 = bus.log();
        if r0.is_err() {
            proof {
                if !old(bus).is_leased() {
                    lemma_power_up_head_fault(self.address(), appended(log0, log1), r0);
                }
            }
            return r0;
        }
        let polled = self.poll(bus, delay, Registers::PU_CTRL, PUR_MASK, true);
        let ghost log2 = bus.log();
        proof {
            lemma_extends_trans(log0, log1, log2);
        }
        match polled {
            Err(e) => {
                proof {
                    lemma_power_up_poll_end(self.address(), appended(log0, log1), appended(log1, log2), Err(e));
                }
                return Err(e);
            },
            Ok((false, status)) => {
                proof {
                    lemma_power_up_poll_end(self.address(), appended(log0, log1), appended(log1, log2), Err(Error::PowerUpTimeout(status)));
                }
                return Err(Error::PowerUpTimeout(status));
            },
            Ok((true, _)) => {},
        }
        let mut analog = PU_CTRL::reset(false);
        analog.AVDDS = true;
        analog.OSCS = false;
        analog.PUA = true;
        analog.PUD = true;
        let mut start = analog;
        start.CS = true;
        proof {
            assert(0u8 & 0x40 == 0) by (bit_vector);
        }
        let r1 = self.pu_ctrl_write_pair(bus, &analog, &start);
        proof {
            let log3 = bus.log();
            lemma_extends_trans(log0, log2, log3);
            lemma_power_up_done(self.address(), appended(log0, log1), appended(log1, log2), appended(log2, log3), r1);
        }
        r1
    }

    /// Waits for a calibration to finish: reads control register 2 after each wait of
    /// `POLL_INTERVAL_MS` until its calibration flag is clear, at most `POLL_ATTEMPTS`
    /// times; `CalibrationTimeout` with the last byte read when it stays set.
    fn wait_for_calibration_completion<B: I2c, D: DelayNs>(&self, bus: &mut Arbiter<B>, delay: &mut D) -> (r: Result<(), Error>)
        ensures
            final(bus).is_leased() == old(bus).is_leased(),
            old(bus).is_leased() ==> r == Err::<(), Error>(Error::Bus(BusError::Busy)) && final(bus).log() == old(bus).log(),
            !old(bus).is_leased() ==> {
                let t = appended(old(bus).log(), final(bus).log());
                &&& extends(old(bus).log(), final(bus).log())
                &&& poll_run(self.address(), Registers::CTRL2.index(), CALS_MASK, false, t)
                &&& r == calibration_result(t)
            },
    {
        match self.poll(bus, delay, Registers::CTRL2, CALS_MASK, false) {
            Ok((true, _)) => Ok(()),
            Ok((false, status)) => Err(Error::CalibrationTimeout(status)),
            Err(e) => Err(e),
        }
    }

    fn ctrl1_write<B: I2c>(&self, bus: &mut Arbiter<B>, ctrl1: CTRL1) -> (r: Result<(), Error>)
        ensures
            final(bus).is_leased() == old(bus).is_leased(),
            old(bus).is_leased() ==> r == Err::<(), Error>(Error::Bus(BusError::Busy)) && final(bus).log() == old(bus).log(),
            !old(bus).is_leased() ==> {
                let t = appended(old(bus).log(), final(bus).log());
                &&& extends(old(bus).log(), final(bus).log())
                &&& t.len() == 1
                &&& is_byte_write(t[0], self.address(), Registers::CTRL1.index(), ctrl1_byte(ctrl1))
                &&& r == last_write_result(t)
            },
    {
        self.write_register(bus, Registers::CTRL1, u8::from(ctrl1))
    }

    fn ctrl2_write<B: I2c>(&self, bus: &mut Arbiter<B>, ctrl2: &CTRL2) -> (r: Result<(), Error>)
        ensures
            final(bus).is_leased() == old(bus).is_leased(),
            old(bus).is_leased() ==> r == Err::<(), Error>(Error::Bus(BusError::Busy)) && final(bus).log() == old(bus).log(),
            !old(bus).is_leased() ==> {
                let t = appended(old(bus).log(), final(bus).log());
                &&& extends(old(bus).log(), final(bus).log())
                &&& t.len() == 1
                &&& is_byte_write(t[0], self.address(), Registers::CTRL2.index(), ctrl2_byte(*ctrl2))
                &&& r == last_write_result(t)
            },
    {
        self.write_register(bus, Registers::CTRL2, u8::from(*ctrl2))
    }

    /// Writes `ctrl2` to control register 2 and, when that succeeded, waits for
    /// calibration to finish.
    fn ctrl2_write_and_wait<B: I2c, D: DelayNs>(&self, bus: &mut Arbiter<B>, delay: &mut D, ctrl2: &CTRL2) -> (r: Result<(), Error>)
        ensures
            final(bus).is_leased() == old(bus).is_leased(),
            old(bus).is_leased() ==> r == Err::<(), Error>(Error::Bus(BusError::Busy)) && final(bus).log() == old(bus).log(),
            !old(bus).is_leased() ==> extends(old(bus).log(), final(bus).log()),
            !old(bus).is_leased() ==> write_then_wait(self.address(), ctrl2_byte(*ctrl2), appended(old(bus).log(), final(bus).log()), r),
    {
        let ghost log0 = bus.log();
        let w = self.ctrl2_write(bus, ctrl2);
        if w.is_err() {
            return w;
        }
        let ghost log1 = bus.log();
        let r = self.wait_for_calibration_completion(bus, delay);
        proof {
            lemma_extends_trans(log0, log1, bus.log());
            let t = appended(log0, bus.log());
            assert(t =~= appended(log0, log1) + appended(log1, bus.log()));
            assert(t.subrange(1, t.len() as int) =~= appended(log1, bus.log()));
        }
        r
    }

    /// Starts a calibration, setting the calibration flag of control register 2 and
    /// leaving its other fields as read, and waits for it to finish.
    pub fn calibrate<B: I2c, D: DelayNs>(&self, bus: &mut Arbiter<B>, delay: &mut D) -> (r: Result<(), Error>)
        ensures
            final(bus).is_leased() == old(bus).is_leased(),
            old(bus).is_leased() ==> r == Err::<(), Error>(Error::Bus(BusError::Busy)) && final(bus).log() == old(bus).log(),
            !old(bus).is_leased() ==> {
                let t = appended(old(bus).log(), final(bus).log());
                &&& extends(old(bus).log(), final(bus).log())
                &&& t.len() >= 1
                &&& is_register_read(t[0], self.address(), Registers::CTRL2.index(), 1)
                &&& if t[0].failed() {
                    t.len() == 1 && r == Err::<(), Error>(bus_error(t[0]))
                } else {
                    write_then_wait(
                        self.address(),
                        ctrl2_byte((CTRL2 { calibrate: true, ..ctrl2_of(byte(t[0])) })),
                        t.subrange(1, t.len() as int),
                        r,
                    )
                }
            },
    {
        let ghost log0 = bus.log();
        let mut ctrl2 = match self.ctrl2(bus) {
            Ok(c) => c,
            Err(e) => {
                return Err(e);
            },
        };
        ctrl2.calibrate = true;
        let ghost log1 = bus.log();
        let r = self.ctrl2_write_and_wait(bus, delay, &ctrl2);
        proof {
            lemma_extends_trans(log0, log1, bus.log());
            let t = appended(log0, bus.log());
            assert(t =~= appended(log0, log1) + appended(log1, bus.log()));
            assert(t.subrange(1, t.len() as int) =~= appended(log1, bus.log()));
        }
        r
    }

    /// Makes `adc_channel` the active input. When it already is, nothing is written and
    /// the result is `false`. Otherwise the channel-select flag of control register 2 is
    /// flipped together with a calibration request, since calibration belongs to one
    /// channel, and the result is `true` once calibration has finished.
    pub fn select_channel<B: I2c, D: DelayNs>(&self, bus: &mut Arbiter<B>, adc_channel: AdcChannel, delay: &mut D) -> (r: Result<bool, Error>)
        ensures
            final(bus).is_leased() == old(bus).is_leased(),
            old(bus).is_leased() ==> r == Err::<bool, Error>(Error::Bus(BusError::Busy)) && final(bus).log() == old(bus).log(),
            !old(bus).is_leased() ==> {
                let t = appended(old(bus).log(), final(bus).log());
                let current = ctrl2_of(byte(t[0]));
                let to_b = adc_channel == AdcChannel::B;
                &&& extends(old(bus).log(), final(bus).log())
                &&& t.len() >= 1
                &&& is_register_read(t[0], self.address(), Registers::CTRL2.index(), 1)
                &&& if t[0].failed() {
                    t.len() == 1 && r == Err::<bool, Error>(bus_error(t[0]))
                } else if current.channel2_selected == to_b {
                    t.len() == 1 && r == Ok::<bool, Error>(false)
                } else {
                    &&& write_then_wait(
                        self.address(),
                        ctrl2_byte((CTRL2 { channel2_selected: to_b, calibrate: true, ..current })),
                        t.subrange(1, t.len() as int),
                        match r { Ok(_) => Ok(()), Err(e) => Err(e) },
                    )
                    &&& r is Ok ==> r == Ok::<bool, Error>(true)
                }
            },
    {
        let ghost log0 = bus.log();
        let ctrl2 = match self.ctrl2(bus) {
            Ok(c) => c,
            Err(e) => {
                return Err(e);
            },
        };
        let to_b = match adc_channel {
            AdcChannel::A => false,
            AdcChannel::B => true,
        };
        if ctrl2.channel2_selected == to_b {
            return Ok(false);
        }
        let mut updated = ctrl2;
        updated.channel2_selected = to_b;
        updated.calibrate = true;
        let ghost log1 = bus.log();
        let w = self.ctrl2_write_and_wait(bus, delay, &updated);
        proof {
            lemma_extends_trans(log0, log1, bus.log());
            let t = appended(log0, bus.log());
            assert(t =~= appended(log0, log1) + appended(log1, bus.log()));
            assert(t.subrange(1, t.len() as int) =~= appended(log1, bus.log()));
        }
        match w {
            Ok(()) => Ok(true),
            Err(e) => Err(e),
        }
    }

    /// Writes the bytes of `data` one at a time to consecutive registers from `first`
    /// upward, stopping at the first write that fails.
    fn write_consecutive<B: I2c>(&self, bus: &mut Arbiter<B>, first: u8, data: &[u8]) -> (r: Result<(), Error>)
        requires
            0 < data@.len(),
            first + data@.len() <= 256,
        ensures
            final(bus).is_leased() == old(bus).is_leased(),
            old(bus).is_leased() ==> r == Err::<(), Error>(Error::Bus(BusError::Busy)) && final(bus).log() == old(bus).log(),
            !old(bus).is_leased() ==> {
                let t = appended(old(bus).log(), final(bus).log());
                &&& extends(old(bus).log(), final(bus).log())
                &&& writes_in_order(self.address(), consecutive_writes(first, data@), t)
                &&& r == last_write_result(t)
            },
    {
        let ghost log0 = bus.log();
        let ghost writes = consecutive_writes(first, data@);
        proof {
            lemma_extends_refl(log0);
        }
        let mut i: usize = 0;
        while i < data.len()
            invariant
                i <= data@.len(),
                0 < data@.len(),
                first + data@.len() <= 256,
                writes == consecutive_writes(first, data@),
                bus.is_leased() == old(bus).is_leased(),
                log0 == old(bus).log(),
                old(bus).is_leased() ==> bus.log() == log0 && i == 0,
                !old(bus).is_leased() ==> extends(log0, bus.log()),
                !old(bus).is_leased() ==> appended(log0, bus.log()).len() == i,
                !old(bus).is_leased() ==> forall|j: int| 0 <= j < i ==> #[trigger] appended(log0, bus.log())[j]
                    == register_write(self.address(), writes[j].0, writes[j].1, Ok(())),
            decreases data@.len() - i,
        {
            let ghost prev = bus.log();
            let register: u8 = first + i as u8;
            let value: Vec<u8> = vec![data[i]];
            assert(value@ =~= seq![data@[i as int]]);
            let w = bus.write_register(self.address, register, value.as_slice());
            proof {
                if !old(bus).is_leased() {
                    lemma_push_extends(prev, bus.log().last());
                    lemma_extends_trans(log0, prev, bus.log());
                    let t = appended(log0, bus.log());
                    assert(t =~= appended(log0, prev).push(bus.log().last()));
                    assert(writes[i as int] == ((first + i) as u8, seq![data@[i as int]]));
                }
            }
            match w {
                Ok(()) => {},
                Err(e) => {
                    proof {
                        if !old(bus).is_leased() {
                            let t = appended(log0, bus.log());
                            assert forall|j: int| 0 <= j < t.len() implies #[trigger] t[j]
                                == register_write(self.address(), writes[j].0, writes[j].1, as_write_outcome(t[j])) by {
                                if j < i {
                                    assert(!t[j].failed());
                                }
                            }
                        }
                    }
                    return Err(Error::Bus(e));
                },
            }
            i = i + 1;
        }
        proof {
            let t = appended(log0, bus.log());
            assert forall|j: int| 0 <= j < t.len() implies #[trigger] t[j]
                == register_write(self.address(), writes[j].0, writes[j].1, as_write_outcome(t[j])) by {
                assert(!t[j].failed());
            }
        }
        Ok(())
    }

    /// The three big-endian bytes of the 24-bit two's-complement value `v`.
    pub fn i32_to_i24_be_bytes(v: i32) -> (r: [u8; 3])
        requires
            -0x80_0000 <= v < 0x80_0000,
        ensures
            r@ == i24_be_bytes(v as int),
    {
        let u: u32 = if v < 0 { (v + 0x100_0000) as u32 } else { v as u32 };
        let r: [u8; 3] = [(u / 0x1_0000) as u8, ((u / 0x100) % 0x100) as u8, (u % 0x100) as u8];
        assert(r@ =~= i24_be_bytes(v as int));
        r
    }

    /// The 24-bit two's-complement value of three big-endian bytes, widened to 32 bits.
    pub fn i32_from_i24_be_bytes(b: &[u8; 3]) -> (r: i32)
        ensures
            r == i24_value(b@),
    {
        let u: i32 = b[0] as i32 * 0x1_0000 + b[1] as i32 * 0x100 + b[2] as i32;
        if b[0] >= 0x80 {
            u - 0x100_0000
        } else {
            u
        }
    }

    /// Writes the 24-bit offset calibration of `adc_channel`: its three big-endian bytes,
    /// in register-address order, into the channel's own offset registers.
    pub fn set_adc_offset<B: I2c>(&self, bus: &mut Arbiter<B>, adc_channel: AdcChannel, offset: i32) -> (r: Result<(), Error>)
        requires
            -0x80_0000 <= offset < 0x80_0000,
        ensures
            final(bus).is_leased() == old(bus).is_leased(),
            old(bus).is_leased() ==> r == Err::<(), Error>(Error::Bus(BusError::Busy)) && final(bus).log() == old(bus).log(),
            !old(bus).is_leased() ==> {
                let t = appended(old(bus).log(), final(bus).log());
                &&& extends(old(bus).log(), final(bus).log())
                &&& writes_in_order(self.address(), consecutive_writes(offset_register(adc_channel), i24_be_bytes(offset as int)), t)
                &&& r == last_write_result(t)
            },
    {
        let b = Self::i32_to_i24_be_bytes(offset);
        let first: u8 = match adc_channel {
            AdcChannel::A => Registers::OCAL1_B2.addr(),
            AdcChannel::B => Registers::OCAL2_B2.addr(),
        };
        self.write_consecutive(bus, first, &b)
    }

    /// Writes the 32-bit gain calibration of `adc_channel`: its four big-endian bytes, in
    /// register-address order, into the channel's own gain registers.
    pub fn set_adc_gain_calibration<B: I2c>(&self, bus: &mut Arbiter<B>, adc_channel: AdcChannel, gain: i32) -> (r: Result<(), Error>)
        ensures
            final(bus).is_leased() == old(bus).is_leased(),
            old(bus).is_leased() ==> r == Err::<(), Error>(Error::Bus(BusError::Busy)) && final(bus).log() == old(bus).log(),
            !old(bus).is_leased() ==> {
                let t = appended(old(bus).log(), final(bus).log());
                &&& extends(old(bus).log(), final(bus).log())
                &&& writes_in_order(self.address(), consecutive_writes(gain_register(adc_channel), i32_be_bytes(gain as int)), t)
                &&& r == last_write_result(t)
            },
    {
        let u: u32 = if gain < 0 { (gain as i64 + 0x1_0000_0000) as u32 } else { gain as u32 };
        let b: [u8; 4] = [
            (u / 0x100_0000) as u8,
            ((u / 0x1_0000) % 0x100) as u8,
            ((u / 0x100) % 0x100) as u8,
            (u % 0x100) as u8,
        ];
        assert(b@ =~= i32_be_bytes(gain as int));
        let first: u8 = match adc_channel {
            AdcChannel::A => Registers::GCAL1_B3.addr(),
            AdcChannel::B => Registers::GCAL2_B3.addr(),
        };
        self.write_consecutive(bus, first, &b)
    }

    /// Reads the latest conversion result as a signed 24-bit value. When the
    /// conversion-ready flag is clear the result is `DataNotReady` and the output
    /// registers are not read; otherwise their three bytes are read in one transaction
    /// and sign-extended.
    pub fn read_adc<B: I2c>(&self, bus: &mut Arbiter<B>) -> (r: Result<i32, Error>)
        ensures
            final(bus).is_leased() == old(bus).is_leased(),
            old(bus).is_leased() ==> r == Err::<i32, Error>(Error::Bus(BusError::Busy)) && final(bus).log() == old(bus).log(),
            !old(bus).is_leased() ==> {
                let t = appended(old(bus).log(), final(bus).log());
                &&& extends(old(bus).log(), final(bus).log())
                &&& t.len() >= 1
                &&& is_register_read(t[0], self.address(), Registers::PU_CTRL.index(), 1)
                &&& if t[0].failed() {
                    t.len() == 1 && r == Err::<i32, Error>(bus_error(t[0]))
                } else if !pu_ctrl_of(byte(t[0])).CR {
                    t.len() == 1 && r == Err::<i32, Error>(Error::DataNotReady)
                } else {
                    &&& t.len() == 2
                    &&& is_register_read(t[1], self.address(), Registers::ADCO_B2.index(), 3)
                    &&& if t[1].failed() {
                        r == Err::<i32, Error>(bus_error(t[1]))
                    } else {
                        r == Ok::<i32, Error>(i24_value(reply(t[1])) as i32)
                    }
                }
            },
    {
        let ghost log0 = bus.log();
        let pu_ctrl = match self.pu_ctrl(bus) {
            Ok(p) => p,
            Err(e) => {
                return Err(e);
            },
        };
        if !pu_ctrl.CR {
            return Err(Error::DataNotReady);
        }
        let ghost log1 = bus.log();
        let read = bus.write_then_read(self.address, Registers::ADCO_B2.addr(), 3);
        proof {
            lemma_push_extends(log1, bus.log().last());
            lemma_extends_trans(log0, log1, bus.log());
            let t = appended(log0, bus.log());
            assert(t =~= appended(log0, log1) + appended(log1, bus.log()));
        }
        match read {
            Ok(v) => {
                let bytes: [u8; 3] = [v[0], v[1], v[2]];
                assert(bytes@ =~= v@);
                Ok(Self::i32_from_i24_be_bytes(&bytes))
            },
            Err(e) => Err(Error::Bus(e)),
        }
    }
}

/// Encoding a 24-bit value into three big-endian bytes and decoding them gives the value
/// back, and decoding three bytes and encoding the value gives the bytes back.
pub proof fn i24_round_trip(v: int, s: Seq<u8>)
    ensures
        -0x80_0000 <= v < 0x80_0000 ==> i24_value(i24_be_bytes(v)) == v,
        s.len() == 3 ==> i24_be_bytes(i24_value(s)) == s,
{
    if -0x80_0000 <= v < 0x80_0000 {
        let u = if v < 0 { v + 0x100_0000 } else { v };
        assert(0 <= u < 0x100_0000);
        let (b0, b1, b2) = (u / 0x1_0000, (u / 0x100) % 0x100, u % 0x100);
        assert(u == b0 * 0x1_0000 + b1 * 0x100 + b2 && 0 <= b0 < 0x100 && 0 <= b1 < 0x100 && 0 <= b2 < 0x100) by (nonlinear_arith)
            requires
                0 <= u < 0x100_0000,
                b0 == u / 0x1_0000,
                b1 == (u / 0x100) % 0x100,
                b2 == u % 0x100,
        ;
        assert(b0 >= 0x80 <==> v < 0) by (nonlinear_arith)
            requires
                u == (if v < 0 { v + 0x100_0000 } else { v }),
                -0x80_0000 <= v < 0x80_0000,
                u == b0 * 0x1_0000 + b1 * 0x100 + b2,
                0 <= b1 < 0x100,
                0 <= b2 < 0x100,
        ;
    }
    if s.len() == 3 {
        let u = s[0] as int * 0x1_0000 + s[1] as int * 0x100 + s[2] as int;
        let (x0, x1, x2) = (s[0] as int, s[1] as int, s[2] as int);
        assert(u / 0x1_0000 == x0 && (u / 0x100) % 0x100 == x1 && u % 0x100 == x2) by (nonlinear_arith)
            requires
                u == x0 * 0x1_0000 + x1 * 0x100 + x2,
                0 <= x0 < 0x100,
                0 <= x1 < 0x100,
                0 <= x2 < 0x100,
        ;
        assert(i24_be_bytes(i24_value(s)) =~= s);
    }
}

} // verus!
