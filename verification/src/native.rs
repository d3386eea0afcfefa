use vstd::prelude::*;

verus! {

/// A fixed-width numeric type that can be reassembled from its
/// little-endian bytes. `spec_from_le` and `spec_to_le` are the
/// mathematical byte conversions; `from_le` is the executable decode,
/// proved to agree with `spec_from_le`. The proof obligations tie the
/// two directions together: converting a value to bytes and back yields
/// the value again.
pub trait NativeType: Sized + Copy {
    /// Byte width of one value of this type.
    spec fn spec_width() -> nat;

    /// The value encoded by a little-endian byte sequence of this width.
    spec fn spec_from_le(s: Seq<u8>) -> Self;

    /// The little-endian bytes of a value.
    spec fn spec_to_le(self) -> Seq<u8>;

    proof fn lemma_width_positive()
        ensures
            Self::spec_width() >= 1,
    ;

    proof fn lemma_to_le_len(self)
        ensures
            self.spec_to_le().len() == Self::spec_width(),
    ;

    proof fn lemma_from_to_le(self)
        ensures
            Self::spec_from_le(self.spec_to_le()) == self,
    ;

    /// Executable byte width, equal to `spec_width`.
    fn width() -> (w: usize)
        ensures
            w as nat == Self::spec_width(),
            w >= 1,
    ;

    /// Executable little-endian decode of exactly `spec_width` bytes.
    fn from_le(s: &[u8]) -> (v: Self)
        requires
            s@.len() == Self::spec_width(),
        ensures
            v == Self::spec_from_le(s@),
    ;
}

impl NativeType for u16 {
    open spec fn spec_width() -> nat {
        2
    }

    open spec fn spec_from_le(s: Seq<u8>) -> Self {
        vstd::bytes::spec_u16_from_le_bytes(s)
    }

    open spec fn spec_to_le(self) -> Seq<u8> {
        vstd::bytes::spec_u16_to_le_bytes(self)
    }

    proof fn lemma_width_positive() {
    }

    proof fn lemma_to_le_len(self) {
        vstd::bytes::lemma_auto_spec_u16_to_from_le_bytes();
    }

    proof fn lemma_from_to_le(self) {
        vstd::bytes::lemma_auto_spec_u16_to_from_le_bytes();
        assert(vstd::bytes::spec_u16_to_le_bytes(self).len() == 2);
    }

    fn width() -> (w: usize) {
        2
    }

    fn from_le(s: &[u8]) -> (v: Self) {
        vstd::bytes::u16_from_le_bytes(s)
    }
}

impl NativeType for u32 {
    open spec fn spec_width() -> nat {
        4
    }

    open spec fn spec_from_le(s: Seq<u8>) -> Self {
        vstd::bytes::spec_u32_from_le_bytes(s)
    }

    open spec fn spec_to_le(self) -> Seq<u8> {
        vstd::bytes::spec_u32_to_le_bytes(self)
    }

    proof fn lemma_width_positive() {
    }

    proof fn lemma_to_le_len(self) {
        vstd::bytes::lemma_auto_spec_u32_to_from_le_bytes();
    }

    proof fn lemma_from_to_le(self) {
        vstd::bytes::lemma_auto_spec_u32_to_from_le_bytes();
        assert(vstd::bytes::spec_u32_to_le_bytes(self).len() == 4);
    }

    fn width() -> (w: usize) {
        4
    }

    fn from_le(s: &[u8]) -> (v: Self) {
        vstd::bytes::u32_from_le_bytes(s)
    }
}

impl NativeType for u64 {
    open spec fn spec_width() -> nat {
        8
    }

    open spec fn spec_from_le(s: Seq<u8>) -> Self {
        vstd::bytes::spec_u64_from_le_bytes(s)
    }

    open spec fn spec_to_le(self) -> Seq<u8> {
        vstd::bytes::spec_u64_to_le_bytes(self)
    }

    proof fn lemma_width_positive() {
    }

    proof fn lemma_to_le_len(self) {
        vstd::bytes::lemma_auto_spec_u64_to_from_le_bytes();
    }

    proof fn lemma_from_to_le(self) {
        vstd::bytes::lemma_auto_spec_u64_to_from_le_bytes();
    }

    fn width() -> (w: usize) {
        8
    }

    fn from_le(s: &[u8]) -> (v: Self) {
        vstd::bytes::u64_from_le_bytes(s)
    }
}

} // verus!
