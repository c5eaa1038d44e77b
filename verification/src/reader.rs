//! A forward-only cursor over a byte stream.

use crate::error::{FaultKind, StreamFault};
use crate::wire;
use crate::wire::{parse_bool, parse_bytes, parse_i32, parse_u32, parse_u64, parse_u8};
use vstd::prelude::*;
use vstd::slice::slice_subrange;

verus! {

/// A position in a borrowed byte stream. Every read consumes bytes from the
/// front of what is left; nothing is ever re-read.
pub struct Reader<'a> {
    bytes: &'a [u8],
    pos: usize,
}

impl<'a> Reader<'a> {
    #[verifier::type_invariant]
    spec fn inv(self) -> bool {
        self.pos <= self.bytes@.len()
    }

    /// The bytes not yet consumed.
    pub closed spec fn remaining(self) -> Seq<u8> {
        self.bytes@.skip(self.pos as int)
    }

    /// A reader at the start of `bytes`.
    pub fn new(bytes: &'a [u8]) -> (r: Self)
        ensures
            r.remaining() == bytes@,
    {
        Reader { bytes, pos: 0 }
    }

    /// How many bytes are left.
    pub fn left(&self) -> (n: usize)
        ensures
            n == self.remaining().len(),
    {
        proof {
            use_type_invariant(self);
        }
        self.bytes.len() - self.pos
    }

    fn rest(&self) -> (s: &'a [u8])
        ensures
            s@ == self.remaining(),
    {
        proof {
            use_type_invariant(self);
        }
        let s = slice_subrange(self.bytes, self.pos, self.bytes.len());
        assert(s@ =~= self.remaining());
        s
    }

    fn advance(&mut self, n: usize)
        requires
            n <= old(self).remaining().len(),
        ensures
            final(self).remaining() == old(self).remaining().skip(n as int),
    {
        proof {
            use_type_invariant(&*self);
            assert(self.remaining().len() == self.bytes@.len() - self.pos);
        }
        let total = self.bytes.len();
        assert(self.pos + n <= total);
        self.pos = self.pos + n;
        assert(self.remaining() =~= old(self).remaining().skip(n as int));
    }

    /// Reads one byte.
    pub fn take_u8(&mut self) -> (r: Result<u8, StreamFault>)
        ensures
            match parse_u8(old(self).remaining()) {
                Some((v, rest)) => r == Ok::<u8, StreamFault>(v) && final(self).remaining() == rest,
                None => r matches Err(e) && e.kind() == FaultKind::Primitive,
            },
    {
        match wire::take_u8(self.rest()) {
            Ok((v, n)) => {
                self.advance(n);
                Ok(v)
            },
            Err(e) => Err(StreamFault::Primitive(e)),
        }
    }

    /// Reads a flag.
    pub fn take_bool(&mut self) -> (r: Result<bool, StreamFault>)
        ensures
            match parse_bool(old(self).remaining()) {
                Some((v, rest)) => r == Ok::<bool, StreamFault>(v) && final(self).remaining()
                    == rest,
                None => r matches Err(e) && e.kind() == FaultKind::Primitive,
            },
    {
        match wire::take_bool(self.rest()) {
            Ok((v, n)) => {
                self.advance(n);
                Ok(v)
            },
            Err(e) => Err(StreamFault::Primitive(e)),
        }
    }

    /// Reads a `u32`.
    pub fn take_u32(&mut self) -> (r: Result<u32, StreamFault>)
        ensures
            match parse_u32(old(self).remaining()) {
                Some((v, rest)) => r == Ok::<u32, StreamFault>(v) && final(self).remaining()
                    == rest,
                None => r matches Err(e) && e.kind() == FaultKind::Primitive,
            },
    {
        match wire::take_u32(self.rest()) {
            Ok((v, n)) => {
                self.advance(n);
                Ok(v)
            },
            Err(e) => Err(StreamFault::Primitive(e)),
        }
    }

    /// Reads an `i32`.
    pub fn take_i32(&mut self) -> (r: Result<i32, StreamFault>)
        ensures
            match parse_i32(old(self).remaining()) {
                Some((v, rest)) => r == Ok::<i32, StreamFault>(v) && final(self).remaining()
                    == rest,
                None => r matches Err(e) && e.kind() == FaultKind::Primitive,
            },
    {
        match wire::take_i32(self.rest()) {
            Ok((v, n)) => {
                self.advance(n);
                Ok(v)
            },
            Err(e) => Err(StreamFault::Primitive(e)),
        }
    }

    /// Reads a `u64`.
    pub fn take_u64(&mut self) -> (r: Result<u64, StreamFault>)
        ensures
            match parse_u64(old(self).remaining()) {
                Some((v, rest)) => r == Ok::<u64, StreamFault>(v) && final(self).remaining()
                    == rest,
                None => r matches Err(e) && e.kind() == FaultKind::Primitive,
            },
    {
        match wire::take_u64(self.rest()) {
            Ok((v, n)) => {
                self.advance(n);
                Ok(v)
            },
            Err(e) => Err(StreamFault::Primitive(e)),
        }
    }

    /// Reads a length-prefixed byte string.
    pub fn take_bytes(&mut self) -> (r: Result<Vec<u8>, StreamFault>)
        ensures
            match parse_bytes(old(self).remaining()) {
                Some((v, rest)) => r matches Ok(w) && w@ == v && final(self).remaining() == rest,
                None => r matches Err(e) && e.kind() == FaultKind::Primitive,
            },
    {
        match wire::take_bytes(self.rest()) {
            Ok((v, n)) => {
                proof {
                    let s = self.remaining();
                    let len = parse_u64(s).unwrap().0;
                    assert(s.skip(8).skip(len as int) =~= s.skip(n as int));
                }
                self.advance(n);
                Ok(v)
            },
            Err(e) => Err(StreamFault::Primitive(e)),
        }
    }
}

} // verus!
