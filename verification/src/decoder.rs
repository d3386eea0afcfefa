use vstd::prelude::*;

use crate::error::Error;
use crate::native::NativeType;
use core::marker::PhantomData;

verus! {

use vstd::pervasive::VecAdditionalExecFns;
use vstd::slice::slice_index_get;

/// The bytes of logical element `i` in a buffer of `num` elements laid out
/// as `width` planes of `num` bytes each: byte `n` of the element sits at
/// absolute position `num * n + i` (plane `n`, slot `i`).
pub open spec fn element_bytes(source: Seq<u8>, num: nat, width: nat, i: int) -> Seq<u8> {
    Seq::new(width, |n: int| source[num * n + i])
}

/// Every value a buffer in the byte-stream-split layout encodes for the
/// element type `T`, in original element order.
pub open spec fn decoded_values<T: NativeType>(source: Seq<u8>) -> Seq<T> {
    let width = T::spec_width();
    let num = source.len() as int / width as int;
    Seq::new(num as nat, |i: int| T::spec_from_le(element_bytes(source, num as nat, width, i)))
}

/// The byte-stream-split layout of a value sequence: plane `n` holds byte
/// `n` of every value, planes in ascending order, each in element order.
/// This is the companion encoder's output, stated mathematically.
pub open spec fn bss_encode<T: NativeType>(values: Seq<T>) -> Seq<u8> {
    let num = values.len() as int;
    Seq::new(
        (values.len() * T::spec_width()) as nat,
        |j: int| values[j % num].spec_to_le()[j / num],
    )
}

/// Round trip: for any sequence of values of a fixed-width numeric type,
/// of any length, the byte-stream-split layout of that sequence decodes
/// back to exactly the original sequence, in order.
pub proof fn lemma_round_trip<T: NativeType>(values: Seq<T>)
    ensures
        decoded_values::<T>(bss_encode::<T>(values)) == values,
{
    let w = T::spec_width();
    let num = values.len() as int;
    let enc = bss_encode::<T>(values);
    T::lemma_width_positive();
    assert(enc.len() == values.len() * w);
    assert((values.len() * w) as int / (w as int) == num) by (nonlinear_arith)
        requires
            w >= 1,
            num == values.len() as int,
    ;
    let dec = decoded_values::<T>(enc);
    assert(dec.len() == num);
    assert forall|i: int| 0 <= i < num implies dec[i] == values[i] by {
        let eb = element_bytes(enc, num as nat, w, i);
        values[i].lemma_to_le_len();
        assert forall|n: int| 0 <= n < w implies eb[n] == values[i].spec_to_le()[n] by {
            let j = num * n + i;
            assert(0 <= j < num * (w as int)) by (nonlinear_arith)
                requires
                    0 <= n < w,
                    0 <= i < num,
                    j == num * n + i,
            ;
            assert(j % num == i && j / num == n) by (nonlinear_arith)
                requires
                    0 <= i < num,
                    j == num * n + i,
            ;
            assert(enc[j] == values[j % num].spec_to_le()[j / num]);
        }
        assert(eb =~= values[i].spec_to_le());
        values[i].lemma_from_to_le();
    }
    assert(dec =~= values);
}

/// Decodes a byte buffer in the byte-stream-split layout into values of a
/// fixed-width numeric type, lazily and in original order. The buffer is
/// borrowed, never mutated, and validated once at construction; after a
/// successful construction every step is in bounds.
#[derive(Debug)]
pub struct Decoder<'a, T: NativeType> {
    values: &'a [u8],
    scratch: Vec<u8>,
    element_width: usize,
    num_elements: usize,
    current: usize,
    element_type: PhantomData<T>,
}

impl<'a, T: NativeType> Decoder<'a, T> {
    /// Validity of a decoder: the width matches the element type, the
    /// buffer is exactly `num_elements` planes of that width, the cursor
    /// has not run past the end, and the scratch buffer holds one element.
    pub closed spec fn well_formed(self) -> bool {
        &&& self.element_width as nat == T::spec_width()
        &&& self.element_width >= 1
        &&& self.values@.len() == self.num_elements * self.element_width
        &&& self.current <= self.num_elements
        &&& self.scratch@.len() == self.element_width
    }

    /// The borrowed source buffer.
    pub closed spec fn source(self) -> Seq<u8> {
        self.values@
    }

    /// Total number of decodable elements.
    pub closed spec fn count(self) -> nat {
        self.num_elements as nat
    }

    /// Index of the next element to decode.
    pub closed spec fn cursor(self) -> nat {
        self.current as nat
    }

    /// Validates `values` against the declared element width and builds a
    /// decoder positioned at the first element. Fails, returning no
    /// decoder, exactly when the declared width differs from `T`'s byte
    /// width (a zero width always does) or when the buffer length is not
    /// a multiple of the width; each error names the offending values.
    pub fn try_new(values: &'a [u8], element_width: usize) -> (r: Result<Self, Error>)
        ensures
            match r {
                Ok(d) => {
                    &&& element_width as nat == T::spec_width()
                    &&& values@.len() as int % (element_width as int) == 0
                    &&& d.well_formed()
                    &&& d.source() == values@
                    &&& d.count() == values@.len() as int / (element_width as int)
                    &&& d.cursor() == 0
                },
                Err(Error::WidthMismatch { type_width, declared_width }) => {
                    &&& element_width as nat != T::spec_width()
                    &&& type_width as nat == T::spec_width()
                    &&& declared_width == element_width
                },
                Err(Error::MisalignedLength { length, width }) => {
                    &&& element_width as nat == T::spec_width()
                    &&& values@.len() as int % (element_width as int) != 0
                    &&& length == values@.len()
                    &&& width == element_width
                },
            },
    {
        let type_width = T::width();
        if element_width != type_width {
            return Err(Error::WidthMismatch { type_width, declared_width: element_width });
        }
        let values_size = values.len();
        if values_size % element_width != 0 {
            return Err(Error::MisalignedLength { length: values_size, width: element_width });
        }
        let num_elements = values_size / element_width;
        let mut scratch: Vec<u8> = Vec::new();
        let mut n: usize = 0;
        while n < element_width
            invariant
                n <= element_width,
                scratch@.len() == n,
            decreases element_width - n,
        {
            scratch.push(0u8);
            n += 1;
        }
        assert(num_elements * element_width == values@.len()) by (nonlinear_arith)
            requires
                element_width >= 1,
                num_elements == values_size / element_width,
                values_size % element_width == 0,
                values_size == values@.len(),
        ;
        Ok(Decoder {
            values,
            scratch,
            element_width,
            num_elements,
            current: 0,
            element_type: PhantomData,
        })
    }

    /// Yields the next decoded value, or `None` once all `count()` values
    /// have been produced; exhaustion is permanent. A produced step is
    /// always `Ok`: after a successful construction no error can occur,
    /// and the `Result` per step only mirrors the sequence's uniform
    /// element shape. Each value is gathered one byte per plane from the
    /// untouched source buffer and reassembled little-endian.
    pub fn next(&mut self) -> (r: Option<Result<T, Error>>)
        requires
            old(self).well_formed(),
        ensures
            final(self).well_formed(),
            final(self).source() == old(self).source(),
            final(self).count() == old(self).count(),
            old(self).cursor() == old(self).count() ==> {
                &&& r is None
                &&& final(self).cursor() == old(self).cursor()
            },
            old(self).cursor() < old(self).count() ==> {
                &&& r == Some(
                    Result::<T, Error>::Ok(
                        decoded_values::<T>(old(self).source())[old(self).cursor() as int],
                    ),
                )
                &&& final(self).cursor() == old(self).cursor() + 1
            },
    {
        if self.current >= self.num_elements {
            return None;
        }
        let total: usize = self.values.len();
        let mut n: usize = 0;
        while n < self.element_width
            invariant
                old(self).well_formed(),
                old(self).current < old(self).num_elements,
                self.element_width == old(self).element_width,
                self.num_elements == old(self).num_elements,
                self.current == old(self).current,
                self.values@ == old(self).values@,
                total == self.values@.len(),
                self.scratch@.len() == self.element_width,
                n <= self.element_width,
                forall|k: int|
                    0 <= k < n ==> self.scratch@[k] == self.values@[self.num_elements * k
                        + self.current],
            decreases self.element_width - n,
        {
            proof {
                assert(self.num_elements * n + self.current < self.num_elements
                    * self.element_width) by (nonlinear_arith)
                    requires
                        n < self.element_width,
                        self.current < self.num_elements,
                ;
            }
            let b: u8 = *slice_index_get(self.values, self.num_elements * n + self.current);
            self.scratch.set(n, b);
            n += 1;
        }
        proof {
            assert(self.scratch@ =~= element_bytes(
                self.values@,
                self.num_elements as nat,
                self.element_width as nat,
                self.current as int,
            ));
            assert(self.values@.len() as int / self.element_width as int
                == self.num_elements as int) by (nonlinear_arith)
                requires
                    self.element_width >= 1,
                    self.values@.len() == self.num_elements * self.element_width,
            ;
        }
        let value = T::from_le(self.scratch.as_slice());
        self.current += 1;
        Some(Ok(value))
    }

    /// Reports how many values are still to be produced: always
    /// `count() - cursor()`, strictly decreasing as values are yielded
    /// and zero exactly at exhaustion. Both components of the pair carry
    /// the same remaining count.
    pub fn size_hint(&self) -> (r: (usize, Option<usize>))
        requires
            self.well_formed(),
        ensures
            r.0 as nat == self.count() - self.cursor(),
            r.1 == Some(r.0),
    {
        let remaining = self.num_elements - self.current;
        (remaining, Some(remaining))
    }
}

} // verus!
