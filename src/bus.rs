use vstd::prelude::*;
use embedded_hal::i2c::{Error, ErrorKind, I2c};
use embedded_hal::delay::DelayNs;

verus! {

// The calls into embedded-hal stay private to this module: every transfer and every wait
// of the drivers goes through the arbiter, which records it in its log.

/// Relies on `embedded_hal::i2c::I2c::write`: one write of `bytes` to the device at
/// `address`; the outcome is whatever the bus reports, with its fault class.
#[verifier::external_body]
fn i2c_write<B: I2c>(bus: &mut B, address: u8, bytes: &[u8]) -> (r: Result<(), ErrorKind>)
{
    match bus.write(address, bytes) {
        Ok(()) => Ok(()),
        Err(e) => Err(e.kind()),
    }
}

/// Relies on `embedded_hal::i2c::I2c::write_read`: `bytes` are written and then
/// `read_len` bytes are read back in one bus transaction; the read buffer has the
/// length that was asked for.
#[verifier::external_body]
fn i2c_write_read<B: I2c>(bus: &mut B, address: u8, bytes: &[u8], read_len: usize) -> (r: Result<Vec<u8>, ErrorKind>)
    ensures
        r matches Ok(v) ==> v@.len() == read_len,
{
    let mut buffer = vec![0u8; read_len];
    match bus.write_read(address, bytes, &mut buffer) {
        Ok(()) => Ok(buffer),
        Err(e) => Err(e.kind()),
    }
}

/// Relies on `embedded_hal::delay::DelayNs::delay_ms`: blocks for at least `ms` milliseconds.
#[verifier::external_body]
fn pause_ms<D: DelayNs>(delay: &mut D, ms: u32)
{
    delay.delay_ms(ms);
}


/// Why a bus operation did not happen or did not complete.
#[derive(Debug, Clone, Copy, PartialEq, Eq)]
pub enum BusError {
    /// Another lease on the bus is outstanding.
    Busy,
    /// The transport reported a fault while talking to the device at `address`.
    Other { address: u8, kind: ErrorKind },
}

/// One event on the bus: a physical transfer, as the arbiter handed it to the
/// transport, with what came back; or a timed wait.
pub enum Event {
    /// `bytes` written to `address`.
    Write { address: u8, bytes: Seq<u8>, outcome: Result<(), ErrorKind> },
    /// `bytes` written to `address`, then `read_len` bytes read back under the same
    /// transaction.
    WriteRead { address: u8, bytes: Seq<u8>, read_len: nat, outcome: Result<Seq<u8>, ErrorKind> },
    /// A wait of `ms` milliseconds; `leased` tells whether a lease was outstanding
    /// meanwhile.
    Wait { ms: nat, leased: bool },
}

impl Event {
    /// The transport reported a fault for this transfer.
    pub open spec fn failed(self) -> bool {
        match self {
            Event::Write { outcome, .. } => outcome is Err,
            Event::WriteRead { outcome, .. } => outcome is Err,
            Event::Wait { .. } => false,
        }
    }

    /// The fault class of a failed transfer.
    pub open spec fn fault(self) -> ErrorKind
        recommends
            self.failed(),
    {
        match self {
            Event::Write { outcome, .. } => outcome->Err_0,
            Event::WriteRead { outcome, .. } => outcome->Err_0,
            Event::Wait { .. } => arbitrary(),
        }
    }

    /// The device address a transfer went to.
    pub open spec fn address(self) -> u8 {
        match self {
            Event::Write { address, .. } => address,
            Event::WriteRead { address, .. } => address,
            Event::Wait { .. } => 0,
        }
    }
}

/// Register `register` at `address` written with `data`.
pub open spec fn register_write(address: u8, register: u8, data: Seq<u8>, outcome: Result<(), ErrorKind>) -> Event {
    Event::Write { address, bytes: seq![register] + data, outcome }
}

/// `len` bytes read from register `register` at `address`: the index is written, then
/// the bytes are read back.
pub open spec fn register_read(address: u8, register: u8, len: nat, outcome: Result<Seq<u8>, ErrorKind>) -> Event {
    Event::WriteRead { address, bytes: seq![register], read_len: len, outcome }
}

/// The error a caller sees for a failed transfer.
pub open spec fn transfer_error(t: Event) -> BusError {
    BusError::Other { address: t.address(), kind: t.fault() }
}

/// The right to use the bus, handed out by `Arbiter::acquire` and given back to
/// `Arbiter::release`. Only the arbiter makes one.
pub struct Lease {
    _private: (),
}

/// Owner of the one physical bus. It hands out at most one lease at a time and keeps,
/// as ghost state, the list of every transfer made on the bus.
pub struct Arbiter<B> {
    bus: B,
    leased: bool,
    history: Ghost<Seq<Event>>,
}

impl<B: I2c> Arbiter<B> {
    /// A lease is outstanding.
    pub closed spec fn is_leased(&self) -> bool {
        self.leased
    }

    /// Every transfer made on the bus so far, oldest first.
    pub closed spec fn log(&self) -> Seq<Event> {
        self.history@
    }

    /// The bus the arbiter owns.
    pub closed spec fn bus(&self) -> B {
        self.bus
    }

    /// Takes ownership of the bus; no lease is outstanding and nothing has been sent.
    pub fn new(bus: B) -> (r: Self)
        ensures
            !r.is_leased(),
            r.log() == Seq::<Event>::empty(),
            r.bus() == bus,
    {
        Arbiter { bus, leased: false, history: Ghost(Seq::empty()) }
    }

    /// Gives the bus back.
    pub fn destroy(self) -> (r: B)
        ensures
            r == self.bus(),
    {
        self.bus
    }

    /// Whether a lease is outstanding.
    pub fn leased(&self) -> (r: bool)
        ensures
            r == self.is_leased(),
    {
        self.leased
    }

    /// Waits `ms` milliseconds on `delay`, and records the wait with the lease state.
    pub fn pause<D: DelayNs>(&mut self, delay: &mut D, ms: u32)
        ensures
            final(self).is_leased() == old(self).is_leased(),
            final(self).log() == old(self).log().push(Event::Wait { ms: ms as nat, leased: old(self).is_leased() }),
    {
        pause_ms(delay, ms);
        proof {
            self.history@ = self.history@.push(Event::Wait { ms: ms as nat, leased: self.leased });
        }
    }

    /// Grants the lease when none is outstanding; fails with `Busy` otherwise.
    pub fn acquire(&mut self) -> (r: Result<Lease, BusError>)
        ensures
            old(self).is_leased() ==> r == Err::<Lease, BusError>(BusError::Busy),
            !old(self).is_leased() ==> r is Ok,
            final(self).is_leased(),
            final(self).log() == old(self).log(),
    {
        if self.leased {
            Err(BusError::Busy)
        } else {
            self.leased = true;
            Ok(Lease { _private: () })
        }
    }

    /// Ends the lease.
    pub fn release(&mut self, lease: Lease)
        ensures
            !final(self).is_leased(),
            final(self).log() == old(self).log(),
    {
        let Lease { _private: () } = lease;
        self.leased = false;
    }

    /// Writes `bytes` to `address` under `lease`.
    fn write(&mut self, lease: &Lease, address: u8, bytes: &[u8]) -> (r: Result<(), BusError>)
        requires
            old(self).is_leased(),
        ensures
            final(self).is_leased(),
            final(self).log() == old(self).log().push(
                Event::Write { address, bytes: bytes@, outcome: write_outcome(r) },
            ),
            r matches Err(e) ==> e is Other && e->address == address,
    {
        let outcome = i2c_write(&mut self.bus, address, bytes);
        proof {
            self.history@ = self.history@.push(Event::Write { address, bytes: bytes@, outcome });
        }
        match outcome {
            Ok(u) => Ok(u),
            Err(kind) => Err(BusError::Other { address, kind }),
        }
    }

    /// Writes `bytes` to `address` and reads `read_len` bytes back, in one transaction
    /// under `lease`.
    fn write_read(&mut self, lease: &Lease, address: u8, bytes: &[u8], read_len: usize) -> (r: Result<Vec<u8>, BusError>)
        requires
            old(self).is_leased(),
        ensures
            final(self).is_leased(),
            final(self).log() == old(self).log().push(
                Event::WriteRead { address, bytes: bytes@, read_len: read_len as nat, outcome: read_outcome(r) },
            ),
            r matches Ok(v) ==> v@.len() == read_len,
            r matches Err(e) ==> e is Other && e->address == address,
    {
        let outcome = i2c_write_read(&mut self.bus, address, bytes, read_len);
        match outcome {
            Ok(v) => {
                proof {
                    self.history@ = self.history@.push(
                        Event::WriteRead { address, bytes: bytes@, read_len: read_len as nat, outcome: Ok(v@) },
                    );
                }
                Ok(v)
            },
            Err(kind) => {
                proof {
                    self.history@ = self.history@.push(
                        Event::WriteRead { address, bytes: bytes@, read_len: read_len as nat, outcome: Err(kind) },
                    );
                }
                Err(BusError::Other { address, kind })
            },
        }
    }

    /// Writes `data` to register `register` of the device at `address`: one transfer
    /// of the register index followed by `data`, under a lease of its own.
    pub fn write_register(&mut self, address: u8, register: u8, data: &[u8]) -> (r: Result<(), BusError>)
        ensures
            final(self).is_leased() == old(self).is_leased(),
            old(self).is_leased() ==> r == Err::<(), BusError>(BusError::Busy) && final(self).log() == old(self).log(),
            !old(self).is_leased() ==> final(self).log() == old(self).log().push(
                register_write(address, register, data@, write_outcome(r)),
            ),
            !old(self).is_leased() ==> (r matches Err(e) ==> e is Other && e->address == address),
    {
        let lease = match self.acquire() {
            Ok(lease) => lease,
            Err(e) => return Err(e),
        };
        let mut buffer: Vec<u8> = Vec::new();
        buffer.push(register);
        let mut i: usize = 0;
        while i < data.len()
            invariant
                i <= data@.len(),
                buffer@ == seq![register] + data@.subrange(0, i as int),
            decreases data@.len() - i,
        {
            buffer.push(data[i]);
            i = i + 1;
        }
        assert(data@.subrange(0, data@.len() as int) == data@);
        let r = self.write(&lease, address, buffer.as_slice());
        self.release(lease);
        r
    }

    /// Selects register `register` of the device at `address` and reads `read_len`
    /// bytes from it, in one transaction under a lease of its own, so that no other
    /// transfer can come between the selection and the read.
    pub fn write_then_read(&mut self, address: u8, register: u8, read_len: usize) -> (r: Result<Vec<u8>, BusError>)
        ensures
            final(self).is_leased() == old(self).is_leased(),
            old(self).is_leased() ==> r == Err::<Vec<u8>, BusError>(BusError::Busy) && final(self).log() == old(self).log(),
            !old(self).is_leased() ==> final(self).log() == old(self).log().push(
                register_read(address, register, read_len as nat, read_outcome(r)),
            ),
            r matches Ok(v) ==> v@.len() == read_len,
            !old(self).is_leased() ==> (r matches Err(e) ==> e is Other && e->address == address),
    {
        let lease = match self.acquire() {
            Ok(lease) => lease,
            Err(e) => return Err(e),
        };
        let index: Vec<u8> = vec![register];
        assert(index@ == seq![register]);
        let r = self.write_read(&lease, address, index.as_slice(), read_len);
        self.release(lease);
        r
    }
}

/// What the transport reported for a write that ended in `r`.
pub open spec fn write_outcome(r: Result<(), BusError>) -> Result<(), ErrorKind> {
    match r {
        Ok(u) => Ok(u),
        Err(e) => Err(e->kind),
    }
}

/// What the transport reported for a read that ended in `r`.
pub open spec fn read_outcome(r: Result<Vec<u8>, BusError>) -> Result<Seq<u8>, ErrorKind> {
    match r {
        Ok(v) => Ok(v@),
        Err(e) => Err(e->kind),
    }
}

/// `new` is `old` with transfers appended.
pub open spec fn extends(old: Seq<Event>, new: Seq<Event>) -> bool {
    old.len() <= new.len() && new.subrange(0, old.len() as int) == old
}

/// The transfers of `new` that come after those of `old`.
pub open spec fn appended(old: Seq<Event>, new: Seq<Event>) -> Seq<Event> {
    new.subrange(old.len() as int, new.len() as int)
}

/// What the transport reported for transfer `t`, as a write outcome.
pub open spec fn as_write_outcome(t: Event) -> Result<(), ErrorKind> {
    if t.failed() { Err(t.fault()) } else { Ok(()) }
}

/// The bytes that a read transfer brought back.
pub open spec fn reply(t: Event) -> Seq<u8> {
    match t {
        Event::WriteRead { outcome: Ok(s), .. } => s,
        _ => Seq::empty(),
    }
}

/// `t` is a read of `len` bytes from register `register` at `address`, and its reply,
/// when it succeeded, has that length.
pub open spec fn is_register_read(t: Event, address: u8, register: u8, len: nat) -> bool {
    &&& t == register_read(address, register, len, if t.failed() { Err(t.fault()) } else { Ok(reply(t)) })
    &&& !t.failed() ==> reply(t).len() == len
}

/// `t` writes `writes` (register index and data) to `address` in order, stopping after
/// the first write that fails.
pub open spec fn writes_in_order(address: u8, writes: Seq<(u8, Seq<u8>)>, t: Seq<Event>) -> bool {
    &&& 0 < t.len() <= writes.len()
    &&& forall|i: int| 0 <= i < t.len() ==> #[trigger] t[i] == register_write(address, writes[i].0, writes[i].1, as_write_outcome(t[i]))
    &&& forall|i: int| 0 <= i < t.len() - 1 ==> !(#[trigger] t[i]).failed()
    &&& t.last().failed() || t.len() == writes.len()
}

/// `t` reads `len` bytes from each of `registers` at `address` in order, stopping after
/// the first read that fails.
pub open spec fn reads_in_order(address: u8, registers: Seq<u8>, len: nat, t: Seq<Event>) -> bool {
    &&& 0 < t.len() <= registers.len()
    &&& forall|i: int| 0 <= i < t.len() ==> is_register_read(#[trigger] t[i], address, registers[i], len)
    &&& forall|i: int| 0 <= i < t.len() - 1 ==> !(#[trigger] t[i]).failed()
    &&& t.last().failed() || t.len() == registers.len()
}

/// One transfer pushed onto a log extends it by exactly that transfer.
pub(crate) proof fn lemma_push_extends(log: Seq<Event>, t: Event)
    ensures
        extends(log, log.push(t)),
        appended(log, log.push(t)) == seq![t],
{
    assert(log.push(t).subrange(0, log.len() as int) =~= log);
    assert(appended(log, log.push(t)) =~= seq![t]);
}

/// A log extends itself by nothing.
pub(crate) proof fn lemma_extends_refl(log: Seq<Event>)
    ensures
        extends(log, log),
        appended(log, log) == Seq::<Event>::empty(),
{
    assert(log.subrange(0, log.len() as int) =~= log);
    assert(appended(log, log) =~= Seq::<Event>::empty());
}

/// Extensions compose, and what was appended in two steps is what each step appended.
pub(crate) proof fn lemma_extends_trans(a: Seq<Event>, b: Seq<Event>, c: Seq<Event>)
    requires
        extends(a, b),
        extends(b, c),
    ensures
        extends(a, c),
        appended(a, c) == appended(a, b) + appended(b, c),
{
    assert(c.subrange(0, a.len() as int) =~= b.subrange(0, b.len() as int).subrange(0, a.len() as int));
    assert(c.subrange(0, a.len() as int) =~= a);
    assert(appended(a, c) =~= appended(a, b) + appended(b, c));
}

} // verus!
