use vstd::prelude::*;

verus! {

/// One I2C bus transaction, as it is visible on the wire: either a plain
/// write of a byte string, or a combined write-then-read performed as a
/// single transaction.
pub enum Txn {
    Write { addr: u8, bytes: Seq<u8> },
    WriteRead { addr: u8, written: Seq<u8>, response: Seq<u8> },
}

/// A combined transaction that writes one register address byte and reads
/// one byte back.
pub open spec fn rd1(addr: u8, reg: u8, b: u8) -> Txn {
    Txn::WriteRead { addr, written: seq![reg], response: seq![b] }
}

/// A combined transaction that writes one register address byte and reads
/// two bytes back.
pub open spec fn rd2(addr: u8, reg: u8, b0: u8, b1: u8) -> Txn {
    Txn::WriteRead { addr, written: seq![reg], response: seq![b0, b1] }
}

/// A write transaction carrying only a register address byte.
pub open spec fn wr0(addr: u8, reg: u8) -> Txn {
    Txn::Write { addr, bytes: seq![reg] }
}

/// A write transaction carrying a register address byte and one payload byte.
pub open spec fn wr1(addr: u8, reg: u8, b: u8) -> Txn {
    Txn::Write { addr, bytes: seq![reg, b] }
}

/// A write transaction carrying a register address byte and two payload bytes.
pub open spec fn wr2(addr: u8, reg: u8, b0: u8, b1: u8) -> Txn {
    Txn::Write { addr, bytes: seq![reg, b0, b1] }
}

/// A 16-bit word assembled big-endian from two bytes on the wire.
pub open spec fn be16(b0: u8, b1: u8) -> u16 {
    ((b0 as u16) * 256 + (b1 as u16)) as u16
}

/// The high byte of a 16-bit word as it goes on the wire.
pub open spec fn u16_hi(w: u16) -> u8 {
    (w / 256) as u8
}

/// The low byte of a 16-bit word as it goes on the wire.
pub open spec fn u16_lo(w: u16) -> u8 {
    (w % 256) as u8
}

/// Failure of a raw bus transaction, reported by the transport.
#[derive(Clone, Copy, Debug)]
pub struct TransportError;

/// A raw I2C transport: anything that can perform a plain write and a
/// combined write-then-read transaction against a 7-bit device address.
///
/// The ghost `log` records every transaction that completed, oldest first,
/// together with the bytes that were exchanged. A failed call leaves the
/// log unchanged: the contracts of the drivers above speak entirely in
/// terms of this log.
pub trait I2cTransport: Sized {
    /// All transactions completed so far, oldest first. The default is the
    /// empty log; a transport that wants the drivers' trace contracts to
    /// say anything must maintain it truthfully.
    open spec fn log(&self) -> Seq<Txn> {
        Seq::empty()
    }

    /// Perform one write transaction carrying exactly `bytes`.
    fn write(&mut self, addr: u8, bytes: &Vec<u8>) -> (r: Result<(), TransportError>)
        ensures
            match r {
                Ok(_) => final(self).log() == old(self).log().push(
                    Txn::Write { addr, bytes: bytes@ },
                ),
                Err(_) => final(self).log() == old(self).log(),
            },
    ;

    /// Perform one combined transaction that writes `written` and then reads
    /// `count` bytes without releasing the bus in between.
    fn write_read(&mut self, addr: u8, written: &Vec<u8>, count: usize) -> (r: Result<
        Vec<u8>,
        TransportError,
    >)
        ensures
            match r {
                Ok(response) => {
                    &&& response@.len() == count
                    &&& final(self).log() == old(self).log().push(
                        Txn::WriteRead { addr, written: written@, response: response@ },
                    )
                },
                Err(_) => final(self).log() == old(self).log(),
            },
    ;
}

/// Any transport failure, collapsed to a single variant: transactions are
/// never retried and never partially reported.
#[derive(Clone, Copy, PartialEq, Eq, Structural, Debug)]
pub enum I2CError {
    IOError,
}

/// A register-addressed device on the bus: a transport plus the fixed 7-bit
/// device address chosen at construction.
pub struct I2CWrapper<T> {
    i2c: T,
    address: u8,
}

impl<T: I2cTransport> I2CWrapper<T> {
    /// The device address every transaction is directed at.
    pub closed spec fn addr(&self) -> u8 {
        self.address
    }

    /// The transactions completed on the underlying transport, oldest first.
    pub closed spec fn log(&self) -> Seq<Txn> {
        self.i2c.log()
    }

    pub fn new(i2c: T, address: u8) -> (r: I2CWrapper<T>)
        ensures
            r.addr() == address,
            r.log() == i2c.log(),
    {
        I2CWrapper { address, i2c }
    }

    /// Read `count` bytes from a register: one transaction that writes the
    /// single address byte and reads the payload in the same transaction,
    /// so that no intervening traffic can desynchronize the register pointer.
    pub fn read_from_register(&mut self, register: u8, count: usize) -> (r: Result<
        Vec<u8>,
        I2CError,
    >)
        ensures
            final(self).addr() == old(self).addr(),
            match r {
                Ok(buffer) => {
                    &&& buffer@.len() == count
                    &&& final(self).log() == old(self).log().push(
                        Txn::WriteRead {
                            addr: old(self).addr(),
                            written: seq![register],
                            response: buffer@,
                        },
                    )
                },
                Err(e) => e == I2CError::IOError && final(self).log() == old(self).log(),
            },
    {
        let mut written: Vec<u8> = Vec::new();
        written.push(register);
        proof {
            assert(written@ =~= seq![register]);
        }
        match self.i2c.write_read(self.address, &written, count) {
            Ok(buffer) => Ok(buffer),
            Err(_) => Err(I2CError::IOError),
        }
    }

    /// Write a payload to a register: one transaction whose bytes are the
    /// register address followed by the payload.
    pub fn write_to_register(&mut self, register: u8, bytes: &Vec<u8>) -> (r: Result<
        (),
        I2CError,
    >)
        ensures
            final(self).addr() == old(self).addr(),
            match r {
                Ok(_) => final(self).log() == old(self).log().push(
                    Txn::Write { addr: old(self).addr(), bytes: seq![register] + bytes@ },
                ),
                Err(e) => e == I2CError::IOError && final(self).log() == old(self).log(),
            },
    {
        let mut buffer: Vec<u8> = Vec::with_capacity(bytes.len());
        buffer.push(register);
        let mut i: usize = 0;
        while i < bytes.len()
            invariant
                i <= bytes.len(),
                buffer@ == seq![register] + bytes@.take(i as int),
            decreases bytes.len() - i,
        {
            buffer.push(bytes[i]);
            proof {
                assert(seq![register] + bytes@.take(i as int) + seq![bytes@[i as int]] =~= seq![
                    register,
                ] + bytes@.take(i as int + 1));
            }
            i += 1;
        }
        proof {
            assert(bytes@.take(bytes@.len() as int) =~= bytes@);
        }
        match self.i2c.write(self.address, &buffer) {
            Ok(_) => Ok(()),
            Err(_) => Err(I2CError::IOError),
        }
    }
}

} // verus!
