//! Strings of at most `N` bytes, for formatting without an allocator's
//! growth.

use vstd::prelude::*;
use vstd::string::StringSliceAdditionalSpecFns;

verus! {

/// A string of at most `N` bytes.
pub struct KString<const N: usize> {
    buf: Vec<u8>,
}

/// The string is full.
#[derive(Clone, Copy, Debug, PartialEq, Eq, Structural)]
pub struct KStringFull;

impl<const N: usize> View for KString<N> {
    type V = Seq<u8>;

    closed spec fn view(&self) -> Seq<u8> {
        self.buf@
    }
}

impl<const N: usize> KString<N> {
    /// The bytes never exceed the capacity.
    pub closed spec fn wf(&self) -> bool {
        self.buf@.len() <= N
    }

    /// The empty string.
    pub fn new() -> (r: Self)
        ensures
            r@ == Seq::<u8>::empty(),
            r.wf(),
    {
        KString { buf: Vec::new() }
    }

    pub fn as_bytes(&self) -> (r: &[u8])
        ensures
            r@ == self@,
    {
        self.buf.as_slice()
    }

    pub fn clear(&mut self)
        ensures
            final(self)@ == Seq::<u8>::empty(),
            final(self).wf(),
    {
        self.buf.clear();
    }

    /// Appends a byte; refused, and nothing changed, when the string holds
    /// `N` bytes.
    pub fn push_byte(&mut self, byte: u8) -> (r: Result<(), KStringFull>)
        requires
            old(self).wf(),
        ensures
            final(self).wf(),
            r is Ok <==> old(self)@.len() < N,
            r is Ok ==> final(self)@ == old(self)@.push(byte),
            r is Err ==> final(self)@ == old(self)@,
    {
        if self.buf.len() >= N {
            return Err(KStringFull);
        }
        self.buf.push(byte);
        Ok(())
    }

    /// Appends the bytes of `s`, as many as fit; an error when not all of
    /// them did.
    pub fn write_str(&mut self, s: &str) -> (r: Result<(), KStringFull>)
        requires
            old(self).wf(),
        ensures
            final(self).wf(),
            ({
                let room = N - old(self)@.len();
                let b = s.spec_bytes();
                if b.len() <= room {
                    r is Ok && final(self)@ == old(self)@ + b
                } else {
                    r is Err && final(self)@ == old(self)@ + b.subrange(0, room)
                }
            }),
    {
        let bytes = s.as_bytes();
        let ghost start = self@;
        let mut i: usize = 0;
        while i < bytes.len()
            invariant
                self.wf(),
                i <= bytes@.len(),
                bytes@ == s.spec_bytes(),
                start.len() + i <= N,
                self@ == start + bytes@.subrange(0, i as int),
                start == old(self)@,
            decreases bytes@.len() - i,
        {
            if self.push_byte(bytes[i]).is_err() {
                assert(N - start.len() == i);
                assert(s.spec_bytes().len() > N - start.len());
                assert(self@ == start + s.spec_bytes().subrange(0, N - start.len()));
                return Err(KStringFull);
            }
            i += 1;
            assert(self@ =~= start + bytes@.subrange(0, i as int));
        }
        assert(bytes@.subrange(0, i as int) =~= bytes@);
        Ok(())
    }
}

/// `text` in a string of capacity `N`, cut off at `N` bytes.
pub fn format_args_to_kstring<const N: usize>(text: &str) -> (r: KString<N>)
    ensures
        r.wf(),
        r@ == (if text.spec_bytes().len() <= N {
            text.spec_bytes()
        } else {
            text.spec_bytes().subrange(0, N as int)
        }),
{
    let mut s = KString::<N>::new();
    let _ = s.write_str(text);
    assert(Seq::<u8>::empty() + text.spec_bytes() =~= text.spec_bytes());
    assert(Seq::<u8>::empty() + text.spec_bytes().subrange(0, N as int) =~= text.spec_bytes().subrange(
        0,
        N as int,
    ));
    s
}

} // verus!
