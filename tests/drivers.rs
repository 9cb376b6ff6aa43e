use std::cell::RefCell;
use std::collections::VecDeque;
use std::rc::Rc;

use embedded_hal::delay::DelayNs;
use embedded_hal::i2c::{ErrorKind, ErrorType, I2c, NoAcknowledgeSource, Operation};
use sensor_bus::bus::{Arbiter, BusError};
use sensor_bus::ina237::{Ina237, Measurement};
use sensor_bus::ina237_types::{AdcAveraging, AdcRange, Configuration, ConfigurationRegisterValues, Mode};
use sensor_bus::nau7802::{AdcChannel, Error, Nau7802, POLL_ATTEMPTS};
use sensor_bus::nau7802_registers::{ConversionRate, Gains, LdoVoltage};

#[derive(Debug, Clone, Copy, PartialEq)]
struct MockError(ErrorKind);

impl embedded_hal::i2c::Error for MockError {
    fn kind(&self) -> ErrorKind {
        self.0
    }
}

#[derive(Debug, Clone, PartialEq)]
enum Op {
    Write(u8, Vec<u8>),
    WriteRead(u8, Vec<u8>, usize),
    Wait(u32),
}

/// A scripted bus: reads take their replies from `replies` (then repeat `fallback`),
/// writes take their outcomes from `write_results` (then succeed).
#[derive(Default)]
struct MockBus {
    ops: Vec<Op>,
    replies: VecDeque<Result<Vec<u8>, ErrorKind>>,
    fallback: Option<u8>,
    write_results: VecDeque<Result<(), ErrorKind>>,
    trace: Option<Rc<RefCell<Vec<Op>>>>,
}

impl MockBus {
    fn with_replies(replies: Vec<Vec<u8>>) -> MockBus {
        MockBus { replies: replies.into_iter().map(Ok).collect(), ..MockBus::default() }
    }

    fn writes(&self) -> usize {
        self.ops.iter().filter(|op| matches!(op, Op::Write(..))).count()
    }

    fn reads(&self) -> usize {
        self.ops.iter().filter(|op| matches!(op, Op::WriteRead(..))).count()
    }
}

impl ErrorType for MockBus {
    type Error = MockError;
}

impl I2c for MockBus {
    fn transaction(&mut self, address: u8, operations: &mut [Operation<'_>]) -> Result<(), MockError> {
        match operations {
            [Operation::Write(bytes)] => {
                self.ops.push(Op::Write(address, bytes.to_vec()));
                if let Some(trace) = &self.trace {
                    trace.borrow_mut().push(Op::Write(address, bytes.to_vec()));
                }
                self.write_results.pop_front().unwrap_or(Ok(())).map_err(MockError)
            }
            [Operation::Write(bytes), Operation::Read(buffer)] => {
                self.ops.push(Op::WriteRead(address, bytes.to_vec(), buffer.len()));
                if let Some(trace) = &self.trace {
                    trace.borrow_mut().push(Op::WriteRead(address, bytes.to_vec(), buffer.len()));
                }
                let reply = match self.replies.pop_front() {
                    Some(r) => r,
                    None => Ok(vec![self.fallback.expect("unscripted read"); buffer.len()]),
                };
                let data = reply.map_err(MockError)?;
                buffer.copy_from_slice(&data);
                Ok(())
            }
            _ => panic!("unexpected transaction shape"),
        }
    }
}

#[derive(Default)]
struct CountingDelay {
    calls: u32,
    total_ms: u32,
}

impl DelayNs for CountingDelay {
    fn delay_ns(&mut self, _ns: u32) {}

    fn delay_ms(&mut self, ms: u32) {
        self.calls += 1;
        self.total_ms += ms;
    }
}

/// A delay that writes each wait into a trace shared with a `MockBus`.
struct TracingDelay(Rc<RefCell<Vec<Op>>>);

impl DelayNs for TracingDelay {
    fn delay_ns(&mut self, _ns: u32) {}

    fn delay_ms(&mut self, ms: u32) {
        self.0.borrow_mut().push(Op::Wait(ms));
    }
}

const NACK: ErrorKind = ErrorKind::NoAcknowledge(NoAcknowledgeSource::Address);

// Arbiter and register device

#[test]
fn arbiter_two_sequential_acquires_succeed() {
    let mut arbiter = Arbiter::new(MockBus::default());
    let first = arbiter.acquire().expect("unleased bus");
    arbiter.release(first);
    let second = arbiter.acquire().expect("released bus");
    arbiter.release(second);
}

#[test]
fn arbiter_second_acquire_while_leased_is_busy() {
    let mut arbiter = Arbiter::new(MockBus::default());
    let lease = arbiter.acquire().expect("unleased bus");
    assert!(matches!(arbiter.acquire(), Err(BusError::Busy)));
    arbiter.release(lease);
    assert!(arbiter.acquire().is_ok());
}

#[test]
fn register_operations_are_refused_while_leased() {
    let mut arbiter = Arbiter::new(MockBus::with_replies(vec![vec![0x12, 0x34]]));
    let lease = arbiter.acquire().unwrap();
    assert_eq!(Err(BusError::Busy), arbiter.write_register(0x40, 0x02, &[0x01]));
    assert_eq!(Err(BusError::Busy), arbiter.write_then_read(0x40, 0x02, 2));
    arbiter.release(lease);
    assert_eq!(Ok(vec![0x12, 0x34]), arbiter.write_then_read(0x40, 0x02, 2));
    let bus = arbiter.destroy();
    assert_eq!(vec![Op::WriteRead(0x40, vec![0x02], 2)], bus.ops);
}

#[test]
fn write_register_sends_index_then_data() {
    let mut arbiter = Arbiter::new(MockBus::default());
    assert_eq!(Ok(()), arbiter.write_register(0x40, 0x02, &[0x0F, 0xA0]));
    let bus = arbiter.destroy();
    assert_eq!(vec![Op::Write(0x40, vec![0x02, 0x0F, 0xA0])], bus.ops);
}

#[test]
fn transport_fault_names_the_device() {
    let mut bus = MockBus::default();
    bus.write_results.push_back(Err(NACK));
    bus.replies.push_back(Err(ErrorKind::ArbitrationLoss));
    let mut arbiter = Arbiter::new(bus);
    assert_eq!(Err(BusError::Other { address: 0x40, kind: NACK }), arbiter.write_register(0x40, 0x00, &[0x00]));
    assert_eq!(
        Err(BusError::Other { address: 0x2a, kind: ErrorKind::ArbitrationLoss }),
        arbiter.write_then_read(0x2a, 0x00, 1)
    );
    assert!(arbiter.acquire().is_ok());
}

// Power monitor

#[test]
fn constructor_returns_struct() {
    let arbiter = Arbiter::new(MockBus::default());

    let configuration = Configuration::new(0x01, 2000);

    let under_test = Ina237::new(configuration);

    let configuration = under_test.destroy();
    assert_eq!(0x01, configuration.addr());

    let bus = arbiter.destroy();
    assert!(bus.ops.is_empty());
}

#[test]
fn initialize_sets_calibration_register() {
    let arbiter = Arbiter::new(MockBus::default());

    let configuration = Configuration::new(0x01, 2000);

    let under_test = Ina237::new(configuration);

    let _ = under_test.destroy();

    let bus = arbiter.destroy();
    assert!(bus.ops.is_empty());
}

#[test]
fn ina_initialize_writes_calibration_then_both_configuration_words() {
    let mut arbiter = Arbiter::new(MockBus::default());
    let ina = Ina237::new(Configuration::new(0x46, 4000));
    let mut values = ConfigurationRegisterValues::new();
    values.adc_range = AdcRange::LOW;
    values.mode = Mode::ContinuousTempShuntBusVoltage;
    values.adc_averaging = AdcAveraging::Avg64;
    assert_eq!(Ok(()), ina.initialize(&mut arbiter, values));
    let bus = arbiter.destroy();
    assert_eq!(
        vec![
            Op::Write(0x46, vec![0x02, 0x0F, 0xA0]),
            Op::Write(0x46, vec![0x00, 0x00, 0x10]),
            Op::Write(0x46, vec![0x01, 0xFB, 0x6B]),
        ],
        bus.ops
    );
}

#[test]
fn ina_initialize_stops_at_first_fault() {
    let mut bus = MockBus::default();
    bus.write_results.push_back(Ok(()));
    bus.write_results.push_back(Err(ErrorKind::Bus));
    let mut arbiter = Arbiter::new(bus);
    let ina = Ina237::new(Configuration::new(0x46, 4000));
    assert_eq!(
        Err(BusError::Other { address: 0x46, kind: ErrorKind::Bus }),
        ina.initialize(&mut arbiter, ConfigurationRegisterValues::new())
    );
    assert_eq!(2, arbiter.destroy().ops.len());
}

#[test]
fn ina_read_back_registers() {
    let replies = vec![vec![0x12, 0x34], vec![0xFB, 0x68], vec![0x54, 0x49], vec![0x0F, 0xA0]];
    let mut arbiter = Arbiter::new(MockBus::with_replies(replies));
    let ina = Ina237::new(Configuration::new(0x40, 4000));
    assert_eq!(Ok(0x1234), ina.configuration(&mut arbiter));
    assert_eq!(Ok(0xFB68), ina.adc_configuration(&mut arbiter));
    assert_eq!(Ok(0x5449), ina.manufacturer_id(&mut arbiter));
    assert_eq!(Ok(4000), ina.shunt_cal(&mut arbiter));
    let bus = arbiter.destroy();
    assert_eq!(
        vec![
            Op::WriteRead(0x40, vec![0x00], 2),
            Op::WriteRead(0x40, vec![0x01], 2),
            Op::WriteRead(0x40, vec![0x3E], 2),
            Op::WriteRead(0x40, vec![0x02], 2),
        ],
        bus.ops
    );
}

#[test]
fn ina_read_decodes_positive_raw_values() {
    let replies = vec![vec![0x00, 0x64]; 4];
    let mut arbiter = Arbiter::new(MockBus::with_replies(replies));
    let ina = Ina237::new(Configuration::new(0x40, 4000));
    let m = ina.read(&mut arbiter).expect("all reads succeed");
    assert_eq!(312, m.voltage_mv());
    assert_eq!(500, m.shunt_uv());
    assert_eq!(10000, m.current_ua());
    assert_eq!(781, m.temp_mc());
    let bus = arbiter.destroy();
    assert_eq!(
        vec![
            Op::WriteRead(0x40, vec![0x05], 2),
            Op::WriteRead(0x40, vec![0x04], 2),
            Op::WriteRead(0x40, vec![0x07], 2),
            Op::WriteRead(0x40, vec![0x06], 2),
        ],
        bus.ops
    );
}

#[test]
fn ina_read_keeps_the_sign_of_negative_raw_values() {
    let replies = vec![vec![0xFF, 0x9C]; 4];
    let mut arbiter = Arbiter::new(MockBus::with_replies(replies));
    let ina = Ina237::new(Configuration::new(0x40, 4000));
    let m = ina.read(&mut arbiter).expect("all reads succeed");
    assert_eq!(-312, m.voltage_mv());
    assert_eq!(-500, m.shunt_uv());
    assert_eq!(-10000, m.current_ua());
    assert_eq!(-781, m.temp_mc());
}

#[test]
fn ina_read_stops_at_first_fault() {
    let mut bus = MockBus::with_replies(vec![vec![0x00, 0x01]]);
    bus.replies.push_back(Err(NACK));
    let mut arbiter = Arbiter::new(bus);
    let ina = Ina237::new(Configuration::new(0x40, 4000));
    assert!(matches!(ina.read(&mut arbiter), Err(BusError::Other { address: 0x40, kind: NACK })));
    assert_eq!(2, arbiter.destroy().ops.len());
}

#[test]
fn measurement_scales_extremes() {
    let m = Measurement::from_readings(i16::MAX, i16::MIN, -1, i16::MIN);
    assert_eq!(102396, m.voltage_mv());
    assert_eq!(-163840, m.shunt_uv());
    assert_eq!(-100, m.current_ua());
    assert_eq!(-256000, m.temp_mc());
}

// ADC

#[test]
fn i24_sign_extension() {
    assert_eq!(8388607, Nau7802::i32_from_i24_be_bytes(&[0x7F, 0xFF, 0xFF]));
    assert_eq!(-8388608, Nau7802::i32_from_i24_be_bytes(&[0x80, 0x00, 0x00]));
    assert_eq!(-1, Nau7802::i32_from_i24_be_bytes(&[0xFF, 0xFF, 0xFF]));
    assert_eq!(0x123456, Nau7802::i32_from_i24_be_bytes(&[0x12, 0x34, 0x56]));
}

#[test]
fn i24_encoding() {
    assert_eq!([0xFF, 0xFF, 0xFF], Nau7802::i32_to_i24_be_bytes(-1));
    assert_eq!([0x7F, 0xFF, 0xFF], Nau7802::i32_to_i24_be_bytes(8388607));
    assert_eq!([0x80, 0x00, 0x00], Nau7802::i32_to_i24_be_bytes(-8388608));
}

#[test]
fn nau_initialize_powers_up_once_ready() {
    let mut arbiter = Arbiter::new(MockBus::with_replies(vec![vec![0x02], vec![0x02], vec![0x0A]]));
    let mut delay = CountingDelay::default();
    let nau = Nau7802::new();
    assert_eq!(Ok(()), nau.initialize(&mut arbiter, &mut delay));
    assert_eq!(3, delay.calls);
    assert_eq!(60, delay.total_ms);
    let bus = arbiter.destroy();
    assert_eq!(
        vec![
            Op::Write(0x2a, vec![0x00, 0x01]),
            Op::Write(0x2a, vec![0x00, 0x02]),
            Op::WriteRead(0x2a, vec![0x00], 1),
            Op::WriteRead(0x2a, vec![0x00], 1),
            Op::WriteRead(0x2a, vec![0x00], 1),
            Op::Write(0x2a, vec![0x00, 0x86]),
            Op::Write(0x2a, vec![0x00, 0x96]),
        ],
        bus.ops
    );
}

#[test]
fn nau_initialize_times_out_after_exactly_the_attempt_count() {
    let mut bus = MockBus::default();
    bus.fallback = Some(0x02);
    let mut arbiter = Arbiter::new(bus);
    let mut delay = CountingDelay::default();
    let nau = Nau7802::new();
    assert_eq!(Err(Error::PowerUpTimeout(0x02)), nau.initialize(&mut arbiter, &mut delay));
    let bus = arbiter.destroy();
    assert_eq!(50, POLL_ATTEMPTS);
    assert_eq!(POLL_ATTEMPTS as usize, bus.reads());
    assert_eq!(2, bus.writes());
    assert_eq!(POLL_ATTEMPTS, delay.calls);
}

#[test]
fn nau_initialize_reports_reset_fault() {
    let mut bus = MockBus::default();
    bus.write_results.push_back(Err(NACK));
    let mut arbiter = Arbiter::new(bus);
    let mut delay = CountingDelay::default();
    assert_eq!(
        Err(Error::Bus(BusError::Other { address: 0x2a, kind: NACK })),
        Nau7802::new().initialize(&mut arbiter, &mut delay)
    );
    assert_eq!(1, arbiter.destroy().ops.len());
}

#[test]
fn read_adc_refuses_stale_data() {
    let mut arbiter = Arbiter::new(MockBus::with_replies(vec![vec![0x16]]));
    assert_eq!(Err(Error::DataNotReady), Nau7802::new().read_adc(&mut arbiter));
    assert_eq!(vec![Op::WriteRead(0x2a, vec![0x00], 1)], arbiter.destroy().ops);
}

#[test]
fn read_adc_sign_extends_the_output_registers() {
    let mut arbiter = Arbiter::new(MockBus::with_replies(vec![vec![0x36], vec![0x80, 0x00, 0x00]]));
    assert_eq!(Ok(-8388608), Nau7802::new().read_adc(&mut arbiter));
    let bus = arbiter.destroy();
    assert_eq!(Op::WriteRead(0x2a, vec![0x12], 3), bus.ops[1]);
}

#[test]
fn select_channel_already_active_writes_nothing() {
    let mut arbiter = Arbiter::new(MockBus::with_replies(vec![vec![0x30]]));
    let mut delay = CountingDelay::default();
    assert_eq!(Ok(false), Nau7802::new().select_channel(&mut arbiter, AdcChannel::A, &mut delay));
    let bus = arbiter.destroy();
    assert_eq!(0, bus.writes());
    assert_eq!(vec![Op::WriteRead(0x2a, vec![0x02], 1)], bus.ops);
    assert_eq!(0, delay.calls);
}

#[test]
fn select_channel_switch_recalibrates() {
    let mut arbiter = Arbiter::new(MockBus::with_replies(vec![vec![0x30], vec![0xB4], vec![0xB0]]));
    let mut delay = CountingDelay::default();
    assert_eq!(Ok(true), Nau7802::new().select_channel(&mut arbiter, AdcChannel::B, &mut delay));
    let bus = arbiter.destroy();
    assert_eq!(
        vec![
            Op::WriteRead(0x2a, vec![0x02], 1),
            Op::Write(0x2a, vec![0x02, 0xB4]),
            Op::WriteRead(0x2a, vec![0x02], 1),
            Op::WriteRead(0x2a, vec![0x02], 1),
        ],
        bus.ops
    );
    assert_eq!(2, delay.calls);
}

#[test]
fn select_channel_back_to_a_recalibrates() {
    let mut arbiter = Arbiter::new(MockBus::with_replies(vec![vec![0x80], vec![0x00]]));
    let mut delay = CountingDelay::default();
    assert_eq!(Ok(true), Nau7802::new().select_channel(&mut arbiter, AdcChannel::A, &mut delay));
    let bus = arbiter.destroy();
    assert_eq!(Op::Write(0x2a, vec![0x02, 0x04]), bus.ops[1]);
}

#[test]
fn calibration_times_out_with_last_status() {
    let mut bus = MockBus::with_replies(vec![vec![0x00]]);
    bus.fallback = Some(0x84);
    let mut arbiter = Arbiter::new(bus);
    let mut delay = CountingDelay::default();
    assert_eq!(
        Err(Error::CalibrationTimeout(0x84)),
        Nau7802::new().select_channel(&mut arbiter, AdcChannel::B, &mut delay)
    );
    let bus = arbiter.destroy();
    assert_eq!(1 + POLL_ATTEMPTS as usize, bus.reads());
    assert_eq!(POLL_ATTEMPTS, delay.calls);
}

#[test]
fn calibrate_sets_the_calibration_flag_and_waits() {
    let mut arbiter = Arbiter::new(MockBus::with_replies(vec![vec![0x30], vec![0x34], vec![0x30]]));
    let mut delay = CountingDelay::default();
    assert_eq!(Ok(()), Nau7802::new().calibrate(&mut arbiter, &mut delay));
    let bus = arbiter.destroy();
    assert_eq!(Op::Write(0x2a, vec![0x02, 0x34]), bus.ops[1]);
    assert_eq!(4, bus.ops.len());
}

#[test]
fn offset_bytes_go_to_channel_registers_in_address_order() {
    let mut arbiter = Arbiter::new(MockBus::default());
    let nau = Nau7802::new();
    assert_eq!(Ok(()), nau.set_adc_offset(&mut arbiter, AdcChannel::A, -2));
    assert_eq!(Ok(()), nau.set_adc_offset(&mut arbiter, AdcChannel::B, 0x123456));
    let bus = arbiter.destroy();
    assert_eq!(
        vec![
            Op::Write(0x2a, vec![0x03, 0xFF]),
            Op::Write(0x2a, vec![0x04, 0xFF]),
            Op::Write(0x2a, vec![0x05, 0xFE]),
            Op::Write(0x2a, vec![0x0A, 0x12]),
            Op::Write(0x2a, vec![0x0B, 0x34]),
            Op::Write(0x2a, vec![0x0C, 0x56]),
        ],
        bus.ops
    );
}

#[test]
fn gain_calibration_bytes_go_to_channel_registers() {
    let mut arbiter = Arbiter::new(MockBus::default());
    let nau = Nau7802::new();
    assert_eq!(Ok(()), nau.set_adc_gain_calibration(&mut arbiter, AdcChannel::B, 0x01020304));
    assert_eq!(Ok(()), nau.set_adc_gain_calibration(&mut arbiter, AdcChannel::A, -1));
    let bus = arbiter.destroy();
    assert_eq!(
        vec![
            Op::Write(0x2a, vec![0x0D, 0x01]),
            Op::Write(0x2a, vec![0x0E, 0x02]),
            Op::Write(0x2a, vec![0x0F, 0x03]),
            Op::Write(0x2a, vec![0x10, 0x04]),
            Op::Write(0x2a, vec![0x06, 0xFF]),
            Op::Write(0x2a, vec![0x07, 0xFF]),
            Op::Write(0x2a, vec![0x08, 0xFF]),
            Op::Write(0x2a, vec![0x09, 0xFF]),
        ],
        bus.ops
    );
}

#[test]
fn offset_write_stops_at_first_fault() {
    let mut bus = MockBus::default();
    bus.write_results.push_back(Ok(()));
    bus.write_results.push_back(Err(ErrorKind::Overrun));
    let mut arbiter = Arbiter::new(bus);
    assert_eq!(
        Err(Error::Bus(BusError::Other { address: 0x2a, kind: ErrorKind::Overrun })),
        Nau7802::new().set_adc_offset(&mut arbiter, AdcChannel::A, 7)
    );
    assert_eq!(2, arbiter.destroy().ops.len());
}

#[test]
fn control_1_updates_keep_other_fields() {
    let mut arbiter = Arbiter::new(MockBus::with_replies(vec![vec![0x80], vec![0x00]]));
    let nau = Nau7802::new();
    assert_eq!(Ok(()), nau.set_gain(&mut arbiter, Gains::x16));
    assert_eq!(Ok(()), nau.set_ldo_voltage(&mut arbiter, LdoVoltage::v3_0));
    let bus = arbiter.destroy();
    assert_eq!(Op::Write(0x2a, vec![0x01, 0x84]), bus.ops[1]);
    assert_eq!(Op::Write(0x2a, vec![0x01, 0x28]), bus.ops[3]);
}

#[test]
fn enable_ldo_sets_the_analog_supply_flag() {
    let mut arbiter = Arbiter::new(MockBus::with_replies(vec![vec![0x16]]));
    assert_eq!(Ok(()), Nau7802::new().enable_ldo(&mut arbiter));
    assert_eq!(Op::Write(0x2a, vec![0x00, 0x96]), arbiter.destroy().ops[1]);
}

#[test]
fn status_queries() {
    let mut arbiter = Arbiter::new(MockBus::with_replies(vec![vec![0x20], vec![0x2F], vec![0xB4], vec![0x2C]]));
    let nau = Nau7802::new();
    assert_eq!(Ok(true), nau.is_data_ready(&mut arbiter));
    assert_eq!(Ok(0x0F), nau.revision_id(&mut arbiter));
    let ctrl2 = nau.ctrl2(&mut arbiter).unwrap();
    assert!(ctrl2.channel2_selected && ctrl2.calibrate);
    assert_eq!(ConversionRate::SPS_80, ctrl2.conversion_rate);
    let ctrl1 = nau.ctrl1(&mut arbiter).unwrap();
    assert_eq!(Gains::x16, ctrl1.gain_select);
    let bus = arbiter.destroy();
    assert_eq!(Op::WriteRead(0x2a, vec![0x1F], 1), bus.ops[1]);
}

#[test]
fn adc_operations_are_refused_while_leased() {
    let mut arbiter = Arbiter::new(MockBus::default());
    let lease = arbiter.acquire().unwrap();
    let mut delay = CountingDelay::default();
    let nau = Nau7802::new();
    assert_eq!(Err(Error::Bus(BusError::Busy)), nau.read_adc(&mut arbiter));
    assert_eq!(Err(Error::Bus(BusError::Busy)), nau.initialize(&mut arbiter, &mut delay));
    arbiter.release(lease);
    assert!(arbiter.destroy().ops.is_empty());
}

#[test]
fn each_status_read_follows_a_wait() {
    let trace = Rc::new(RefCell::new(Vec::new()));
    let mut bus = MockBus::with_replies(vec![vec![0x02], vec![0x0A]]);
    bus.trace = Some(trace.clone());
    let mut arbiter = Arbiter::new(bus);
    let mut delay = TracingDelay(trace.clone());
    assert_eq!(Ok(()), Nau7802::new().initialize(&mut arbiter, &mut delay));
    assert_eq!(
        vec![
            Op::Write(0x2a, vec![0x00, 0x01]),
            Op::Write(0x2a, vec![0x00, 0x02]),
            Op::Wait(20),
            Op::WriteRead(0x2a, vec![0x00], 1),
            Op::Wait(20),
            Op::WriteRead(0x2a, vec![0x00], 1),
            Op::Write(0x2a, vec![0x00, 0x86]),
            Op::Write(0x2a, vec![0x00, 0x96]),
        ],
        *trace.borrow()
    );
}

#[test]
fn poll_waits_nothing_while_leased() {
    let mut arbiter = Arbiter::new(MockBus::default());
    let lease = arbiter.acquire().unwrap();
    let mut delay = CountingDelay::default();
    assert_eq!(
        Err(Error::Bus(BusError::Busy)),
        Nau7802::new().calibrate(&mut arbiter, &mut delay)
    );
    assert_eq!(0, delay.calls);
    arbiter.release(lease);
}
