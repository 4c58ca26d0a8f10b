use vstd::prelude::*;

use crate::protocols::i2c::{I2cTransport, TransportError, Txn};

verus! {

/// One expected transaction of a scripted transport, with the response it
/// should produce.
pub enum ScriptItem {
    Write { addr: u8, bytes: Vec<u8> },
    WriteRead { addr: u8, written: Vec<u8>, response: Vec<u8> },
}

impl ScriptItem {
    /// Build an expected plain write transaction.
    pub fn write(addr: u8, bytes: Vec<u8>) -> (r: ScriptItem)
        ensures
            r@ == (Txn::Write { addr, bytes: bytes@ }),
    {
        ScriptItem::Write { addr, bytes }
    }

    /// Build an expected combined write-then-read transaction.
    pub fn write_read(addr: u8, written: Vec<u8>, response: Vec<u8>) -> (r: ScriptItem)
        ensures
            r@ == (Txn::WriteRead { addr, written: written@, response: response@ }),
    {
        ScriptItem::WriteRead { addr, written, response }
    }
}

impl View for ScriptItem {
    type V = Txn;

    open spec fn view(&self) -> Txn {
        match self {
            ScriptItem::Write { addr, bytes } => Txn::Write { addr: *addr, bytes: bytes@ },
            ScriptItem::WriteRead { addr, written, response } => Txn::WriteRead {
                addr: *addr,
                written: written@,
                response: response@,
            },
        }
    }
}

/// A transport that follows a fixed script: each call must match the next
/// expected transaction exactly, and is answered with the scripted response.
/// A call that deviates from the script fails and consumes nothing.
pub struct ScriptedI2c {
    script: Vec<ScriptItem>,
    position: usize,
}

impl ScriptedI2c {
    #[verifier::type_invariant]
    spec fn wf(&self) -> bool {
        self.position <= self.script@.len()
    }

    /// The expected transactions that have not been consumed yet.
    pub closed spec fn remaining(&self) -> Seq<Txn> {
        self.script@.skip(self.position as int).map_values(|s: ScriptItem| s@)
    }

    pub fn new(script: Vec<ScriptItem>) -> (r: ScriptedI2c)
        ensures
            r.log() == Seq::<Txn>::empty(),
            r.remaining() == script@.map_values(|s: ScriptItem| s@),
    {
        let r = ScriptedI2c { script, position: 0 };
        proof {
            assert(r.script@.skip(0) =~= r.script@);
            assert(r.script@.take(0) =~= Seq::<ScriptItem>::empty());
            assert(r.script@.take(0).map_values(|s: ScriptItem| s@) =~= Seq::<Txn>::empty());
        }
        r
    }

    /// True when the whole script has been consumed.
    pub fn is_exhausted(&self) -> (r: bool)
        ensures
            r == (self.remaining().len() == 0),
    {
        proof {
            use_type_invariant(&*self);
        }
        self.position >= self.script.len()
    }
}

/// Element-wise comparison of two byte strings.
fn bytes_equal(a: &Vec<u8>, b: &Vec<u8>) -> (r: bool)
    ensures
        r == (a@ == b@),
{
    if a.len() != b.len() {
        proof {
            assert(a@ != b@);
        }
        return false;
    }
    let mut i: usize = 0;
    while i < a.len()
        invariant
            i <= a.len(),
            a@.len() == b@.len(),
            forall|j: int| 0 <= j < i ==> a@[j] == b@[j],
        decreases a.len() - i,
    {
        if a[i] != b[i] {
            proof {
                assert(a@ != b@);
            }
            return false;
        }
        i += 1;
    }
    proof {
        assert(a@ =~= b@);
    }
    true
}

impl I2cTransport for ScriptedI2c {
    closed spec fn log(&self) -> Seq<Txn> {
        self.script@.take(self.position as int).map_values(|s: ScriptItem| s@)
    }

    fn write(&mut self, addr: u8, bytes: &Vec<u8>) -> (r: Result<(), TransportError>) {
        if self.position >= self.script.len() {
            return Err(TransportError);
        }
        let matches = match &self.script[self.position] {
            ScriptItem::Write { addr: a, bytes: expected } => *a == addr && bytes_equal(
                expected,
                bytes,
            ),
            ScriptItem::WriteRead { .. } => false,
        };
        if !matches {
            return Err(TransportError);
        }
        proof {
            let p = self.position as int;
            assert(self.script@.take(p + 1) =~= self.script@.take(p).push(self.script@[p]));
            assert(self.script@.take(p + 1).map_values(|s: ScriptItem| s@) =~= self.script@.take(
                p,
            ).map_values(|s: ScriptItem| s@).push(self.script@[p]@));
        }
        self.position = self.position + 1;
        Ok(())
    }

    fn write_read(&mut self, addr: u8, written: &Vec<u8>, count: usize) -> (r: Result<
        Vec<u8>,
        TransportError,
    >) {
        if self.position >= self.script.len() {
            return Err(TransportError);
        }
        let response = match &self.script[self.position] {
            ScriptItem::WriteRead { addr: a, written: expected, response } => {
                if *a == addr && bytes_equal(expected, written) && response.len() == count {
                    Some(response.clone())
                } else {
                    None
                }
            },
            ScriptItem::Write { .. } => None,
        };
        match response {
            Some(buffer) => {
                proof {
                    let p = self.position as int;
                    assert(self.script@.take(p + 1) =~= self.script@.take(p).push(
                        self.script@[p],
                    ));
                    assert(self.script@.take(p + 1).map_values(|s: ScriptItem| s@)
                        =~= self.script@.take(p).map_values(|s: ScriptItem| s@).push(
                        self.script@[p]@,
                    ));
                }
                self.position = self.position + 1;
                Ok(buffer)
            },
            None => Err(TransportError),
        }
    }
}

} // verus!
