//! The two capabilities of the crate: converting one value to its byte
//! ([`ToByte`]) and folding a tuple of such values into one byte
//! ([`IntoAByte`]).

use vstd::prelude::*;
use crate::mask::or_all;
use crate::mask::lemma_or_all_push;

verus! {

/// The convert-to-byte capability.
///
/// A consumer type — typically an enum whose variants stand for bit
/// patterns inside a control byte — implements this to say which byte each
/// of its values contributes. `byte` is the specification-level value;
/// `to_byte` computes it and consumes the value.
pub trait ToByte: Sized {
    /// The byte this value stands for.
    spec fn byte(self) -> u8;

    /// Convert the value to its byte.
    fn to_byte(self) -> (r: u8)
        ensures
            r == self.byte(),
    ;
}

/// A byte already is its own byte.
impl ToByte for u8 {
    open spec fn byte(self) -> u8 {
        self
    }

    fn to_byte(self) -> (r: u8)
        ensures
            r == self.byte(),
    {
        self
    }
}

/// The combine-tuple-to-byte capability, defined for tuples of one to
/// eight [`ToByte`] elements.
///
/// The result is the bitwise OR of the elements' bytes, evaluated left to
/// right; `bytes` is the sequence of those bytes in tuple order, so the
/// contract `r == or_all(self.bytes())` pins the result exactly.
pub trait IntoAByte: Sized {
    /// The bytes of the tuple's elements, in tuple order.
    spec fn bytes(self) -> Seq<u8>;

    /// Fold the tuple into one byte by bitwise OR.
    fn into_a_byte(self) -> (r: u8)
        ensures
            r == or_all(self.bytes()),
    ;
}

impl<A: ToByte> IntoAByte for (A,) {
    open spec fn bytes(self) -> Seq<u8> {
        seq![self.0.byte()]
    }

    fn into_a_byte(self) -> (r: u8)
        ensures
            r == or_all(self.bytes()),
    {
        let ghost s = self.bytes();
        let (a,) = self;
        let ra = a.to_byte();
        proof {
            broadcast use lemma_or_all_push;

            assert(s =~= Seq::<u8>::empty().push(ra));
            assert((0u8 | ra) == ra) by (bit_vector);
        }
        ra
    }
}

impl<A: ToByte, B: ToByte> IntoAByte for (A, B) {
    open spec fn bytes(self) -> Seq<u8> {
        seq![self.0.byte(), self.1.byte()]
    }

    fn into_a_byte(self) -> (r: u8)
        ensures
            r == or_all(self.bytes()),
    {
        let ghost s = self.bytes();
        let (a, b) = self;
        let ra = a.to_byte();
        let rb = b.to_byte();
        proof {
            broadcast use lemma_or_all_push;

            assert(s =~= Seq::<u8>::empty().push(ra).push(rb));
            assert(((0u8 | ra) | rb) == (ra | rb)) by (bit_vector);
        }
        ra | rb
    }
}

impl<A: ToByte, B: ToByte, C: ToByte> IntoAByte for (A, B, C) {
    open spec fn bytes(self) -> Seq<u8> {
        seq![self.0.byte(), self.1.byte(), self.2.byte()]
    }

    fn into_a_byte(self) -> (r: u8)
        ensures
            r == or_all(self.bytes()),
    {
        let ghost s = self.bytes();
        let (a, b, c) = self;
        let ra = a.to_byte();
        let rb = b.to_byte();
        let rc = c.to_byte();
        proof {
            broadcast use lemma_or_all_push;

            assert(s =~= Seq::<u8>::empty().push(ra).push(rb).push(rc));
            assert((((0u8 | ra) | rb) | rc) == ((ra | rb) | rc)) by (bit_vector);
        }
        ra | rb | rc
    }
}

impl<A: ToByte, B: ToByte, C: ToByte, D: ToByte> IntoAByte for (A, B, C, D) {
    open spec fn bytes(self) -> Seq<u8> {
        seq![self.0.byte(), self.1.byte(), self.2.byte(), self.3.byte()]
    }

    fn into_a_byte(self) -> (r: u8)
        ensures
            r == or_all(self.bytes()),
    {
        let ghost s = self.bytes();
        let (a, b, c, d) = self;
        let ra = a.to_byte();
        let rb = b.to_byte();
        let rc = c.to_byte();
        let rd = d.to_byte();
        proof {
            broadcast use lemma_or_all_push;

            assert(s =~= Seq::<u8>::empty().push(ra).push(rb).push(rc).push(rd));
            assert(((((0u8 | ra) | rb) | rc) | rd) == (((ra | rb) | rc) | rd)) by (bit_vector);
        }
        ra | rb | rc | rd
    }
}

impl<A: ToByte, B: ToByte, C: ToByte, D: ToByte, E: ToByte> IntoAByte for (A, B, C, D, E) {
    open spec fn bytes(self) -> Seq<u8> {
        seq![self.0.byte(), self.1.byte(), self.2.byte(), self.3.byte(), self.4.byte()]
    }

    fn into_a_byte(self) -> (r: u8)
        ensures
            r == or_all(self.bytes()),
    {
        let ghost s = self.bytes();
        let (a, b, c, d, e) = self;
        let ra = a.to_byte();
        let rb = b.to_byte();
        let rc = c.to_byte();
        let rd = d.to_byte();
        let re = e.to_byte();
        proof {
            broadcast use lemma_or_all_push;

            assert(s =~= Seq::<u8>::empty().push(ra).push(rb).push(rc).push(rd).push(re));
            assert((((((0u8 | ra) | rb) | rc) | rd) | re) == ((((ra | rb) | rc) | rd) | re))
                by (bit_vector);
        }
        ra | rb | rc | rd | re
    }
}

impl<A: ToByte, B: ToByte, C: ToByte, D: ToByte, E: ToByte, F: ToByte> IntoAByte
    for (A, B, C, D, E, F)
{
    open spec fn bytes(self) -> Seq<u8> {
        seq![
            self.0.byte(),
            self.1.byte(),
            self.2.byte(),
            self.3.byte(),
            self.4.byte(),
            self.5.byte(),
        ]
    }

    fn into_a_byte(self) -> (r: u8)
        ensures
            r == or_all(self.bytes()),
    {
        let ghost s = self.bytes();
        let (a, b, c, d, e, f) = self;
        let ra = a.to_byte();
        let rb = b.to_byte();
        let rc = c.to_byte();
        let rd = d.to_byte();
        let re = e.to_byte();
        let rf = f.to_byte();
        proof {
            broadcast use lemma_or_all_push;

            assert(s =~= Seq::<u8>::empty().push(ra).push(rb).push(rc).push(rd).push(re).push(rf));
            assert(((((((0u8 | ra) | rb) | rc) | rd) | re) | rf)
                == (((((ra | rb) | rc) | rd) | re) | rf)) by (bit_vector);
        }
        ra | rb | rc | rd | re | rf
    }
}

impl<A: ToByte, B: ToByte, C: ToByte, D: ToByte, E: ToByte, F: ToByte, G: ToByte> IntoAByte
    for (A, B, C, D, E, F, G)
{
    open spec fn bytes(self) -> Seq<u8> {
        seq![
            self.0.byte(),
            self.1.byte(),
            self.2.byte(),
            self.3.byte(),
            self.4.byte(),
            self.5.byte(),
            self.6.byte(),
        ]
    }

    fn into_a_byte(self) -> (r: u8)
        ensures
            r == or_all(self.bytes()),
    {
        let ghost s = self.bytes();
        let (a, b, c, d, e, f, g) = self;
        let ra = a.to_byte();
        let rb = b.to_byte();
        let rc = c.to_byte();
        let rd = d.to_byte();
        let re = e.to_byte();
        let rf = f.to_byte();
        let rg = g.to_byte();
        proof {
            broadcast use lemma_or_all_push;

            assert(s =~= Seq::<u8>::empty().push(ra).push(rb).push(rc).push(rd).push(re).push(
                rf,
            ).push(rg));
            assert((((((((0u8 | ra) | rb) | rc) | rd) | re) | rf) | rg)
                == ((((((ra | rb) | rc) | rd) | re) | rf) | rg)) by (bit_vector);
        }
        ra | rb | rc | rd | re | rf | rg
    }
}

impl<
    A: ToByte,
    B: ToByte,
    C: ToByte,
    D: ToByte,
    E: ToByte,
    F: ToByte,
    G: ToByte,
    H: ToByte,
> IntoAByte for (A, B, C, D, E, F, G, H) {
    open spec fn bytes(self) -> Seq<u8> {
        seq![
            self.0.byte(),
            self.1.byte(),
            self.2.byte(),
            self.3.byte(),
            self.4.byte(),
            self.5.byte(),
            self.6.byte(),
            self.7.byte(),
        ]
    }

    fn into_a_byte(self) -> (r: u8)
        ensures
            r == or_all(self.bytes()),
    {
        let ghost s = self.bytes();
        let (a, b, c, d, e, f, g, h) = self;
        let ra = a.to_byte();
        let rb = b.to_byte();
        let rc = c.to_byte();
        let rd = d.to_byte();
        let re = e.to_byte();
        let rf = f.to_byte();
        let rg = g.to_byte();
        let rh = h.to_byte();
        proof {
            broadcast use lemma_or_all_push;

            assert(s =~= Seq::<u8>::empty().push(ra).push(rb).push(rc).push(rd).push(re).push(
                rf,
            ).push(rg).push(rh));
            assert(((((((((0u8 | ra) | rb) | rc) | rd) | re) | rf) | rg) | rh)
                == (((((((ra | rb) | rc) | rd) | re) | rf) | rg) | rh)) by (bit_vector);
        }
        ra | rb | rc | rd | re | rf | rg | rh
    }
}

} // verus!

