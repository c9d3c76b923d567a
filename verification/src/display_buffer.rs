//! Text of a bounded length, held without allocation.

use vstd::prelude::*;
use vstd::string::StringSliceAdditionalSpecFns;

verus! {

/// The length of the longest text that a network or a host has in any of
/// its forms: that of `V6(ffff:ffff:ffff:ffff:ffff:ffff:ffff:ffff/128)`.
pub const LONGEST_IPV6_CIDR: usize = 47;

/// What a write reports where the text does not fit.
#[derive(Clone, Copy, PartialEq, Eq, Structural, Debug)]
pub struct FmtError;

/// A buffer for at most `SIZE` bytes of text.
#[derive(Clone, Copy, Debug)]
pub struct DisplayBuffer<const SIZE: usize> {
    pub(crate) buf: [u8; SIZE],
    pub(crate) len: usize,
}

impl<const SIZE: usize> DisplayBuffer<SIZE> {
    #[verifier::type_invariant]
    pub(crate) open spec fn inv(&self) -> bool {
        self.len <= SIZE
    }

    /// The bytes written so far.
    pub open(crate) spec fn view(&self) -> Seq<u8> {
        self.buf@.take(self.len as int)
    }

    /// The buffer with nothing written.
    pub fn new() -> (buffer: Self)
        ensures
            buffer@ == Seq::<u8>::empty(),
    {
        let buffer = DisplayBuffer { buf: [0u8; SIZE], len: 0 };
        proof {
            assert(buffer.buf@.take(0) =~= Seq::<u8>::empty());
        }
        buffer
    }

    /// The number of bytes written so far.
    pub fn len(&self) -> (len: usize)
        ensures
            len == self@.len(),
            len <= SIZE,
    {
        proof {
            use_type_invariant(self);
        }
        self.len
    }

    /// Appends `s` where all of it fits, and changes nothing where it
    /// does not.
    pub fn write_str(&mut self, s: &str) -> (r: Result<(), FmtError>)
        ensures
            old(self)@.len() + s.spec_bytes().len() <= SIZE ==> r is Ok && final(self)@ == old(self)@
                + s.spec_bytes(),
            old(self)@.len() + s.spec_bytes().len() > SIZE ==> r is Err && final(self)@ == old(
                self,
            )@,
    {
        proof {
            use_type_invariant(&*self);
        }
        let bytes = s.as_bytes();
        if bytes.len() > SIZE - self.len {
            return Err(FmtError);
        }
        let ghost before = self@;
        let start = self.len;
        let mut buf = self.buf;
        let mut i: usize = 0;
        while i < bytes.len()
            invariant
                i <= bytes@.len(),
                start + bytes@.len() <= SIZE,
                buf@.take(start as int) == before,
                buf@.subrange(start as int, start + i) == bytes@.take(i as int),
            decreases bytes@.len() - i,
        {
            let ghost had = buf@;
            buf.set(start + i, bytes[i]);
            proof {
                assert(buf@.take(start as int) =~= had.take(start as int));
                assert(buf@.subrange(start as int, start + i + 1) =~= had.subrange(
                    start as int,
                    start + i,
                ).push(bytes@[i as int]));
                assert(bytes@.take(i + 1) =~= bytes@.take(i as int).push(bytes@[i as int]));
            }
            i += 1;
        }
        *self = DisplayBuffer { buf, len: start + bytes.len() };
        proof {
            assert(bytes@.take(bytes@.len() as int) =~= bytes@);
            assert(buf@.take(start + bytes@.len()) =~= buf@.take(start as int) + buf@.subrange(
                start as int,
                start + bytes@.len(),
            ));
        }
        Ok(())
    }

    /// The bytes written so far.
    pub fn to_vec(&self) -> (bytes: Vec<u8>)
        ensures
            bytes@ == self@,
    {
        proof {
            use_type_invariant(self);
        }
        let mut bytes: Vec<u8> = Vec::new();
        let mut i: usize = 0;
        while i < self.len
            invariant
                i <= self.len <= SIZE,
                bytes@ == self.buf@.take(i as int),
            decreases self.len - i,
        {
            bytes.push(self.buf[i]);
            proof {
                assert(self.buf@.take(i + 1) =~= self.buf@.take(i as int).push(self.buf@[i as int]));
            }
            i += 1;
        }
        bytes
    }
}

/// The text of a network or of a host in a buffer of the length of the
/// longest such text.
pub fn format_cidr_fixed(text: &str) -> (buffer: DisplayBuffer<LONGEST_IPV6_CIDR>)
    requires
        text.spec_bytes().len() <= LONGEST_IPV6_CIDR,
    ensures
        buffer@ == text.spec_bytes(),
{
    let mut result = DisplayBuffer::<LONGEST_IPV6_CIDR>::new();
    let written = result.write_str(text);
    proof {
        assert(Seq::<u8>::empty() + text.spec_bytes() =~= text.spec_bytes());
    }
    result
}

} // verus!
