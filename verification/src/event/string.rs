//! Byte strings captured by the kernel.
use vstd::prelude::*;

verus! {

/// The abstract content of a [`CapturedString`]: its bytes and whether the
/// kernel capture was cut short.
pub struct CapturedStringView {
    pub bytes: Seq<u8>,
    pub truncated: bool,
}

/// A byte string captured by the kernel with a fixed bound.
///
/// The bytes are kept exactly as captured: they are not required to be
/// UTF-8. A captured string never holds a NUL byte, which terminates kernel
/// strings; `truncated` reports that the capture bound cut the value short.
#[derive(Debug, PartialEq, Eq, Hash)]
pub struct CapturedString {
    bytes: Vec<u8>,
    truncated: bool,
}

/// The error returned when captured bytes contain a NUL byte.
#[derive(Clone, Copy, Debug, PartialEq, Eq, Structural)]
#[non_exhaustive]
pub struct CapturedStringError;

/// Whether `bytes` holds no NUL byte.
pub open spec fn no_nul(bytes: Seq<u8>) -> bool {
    forall|i: int| 0 <= i < bytes.len() ==> bytes[i] != 0u8
}

impl View for CapturedString {
    type V = CapturedStringView;

    closed spec fn view(&self) -> CapturedStringView {
        CapturedStringView { bytes: self.bytes@, truncated: self.truncated }
    }
}

impl CapturedString {
    /// Creates a captured string from its bytes and its truncation flag.
    ///
    /// Fails when `bytes` holds a NUL byte, which no kernel capture contains.
    pub fn new(bytes: Vec<u8>, truncated: bool) -> (result: Result<Self, CapturedStringError>)
        ensures
            result is Ok <==> no_nul(bytes@),
            result matches Ok(s) ==> s@ == (CapturedStringView { bytes: bytes@, truncated }),
    {
        let mut index: usize = 0;
        while index < bytes.len()
            invariant
                index <= bytes@.len(),
                forall|i: int| 0 <= i < index ==> bytes@[i] != 0u8,
            decreases bytes@.len() - index,
        {
            if bytes[index] == 0 {
                return Err(CapturedStringError);
            }
            index = index + 1;
        }
        Ok(CapturedString { bytes, truncated })
    }

    /// Returns the captured bytes.
    pub fn as_bytes(&self) -> (bytes: &[u8])
        ensures
            bytes@ == self@.bytes,
    {
        self.bytes.as_slice()
    }

    /// Returns whether the capture bound cut the value short.
    pub fn is_truncated(&self) -> (truncated: bool)
        ensures
            truncated == self@.truncated,
    {
        self.truncated
    }

    /// Returns whether both strings hold the same bytes and truncation flag.
    pub fn same_as(&self, other: &CapturedString) -> (same: bool)
        ensures
            same == (self@ == other@),
    {
        if self.truncated != other.truncated || self.bytes.len() != other.bytes.len() {
            return false;
        }
        let mut index: usize = 0;
        while index < self.bytes.len()
            invariant
                index <= self.bytes@.len(),
                self.bytes@.len() == other.bytes@.len(),
                forall|i: int| 0 <= i < index ==> self.bytes@[i] == other.bytes@[i],
            decreases self.bytes@.len() - index,
        {
            if self.bytes[index] != other.bytes[index] {
                return false;
            }
            index = index + 1;
        }
        assert(self.bytes@ =~= other.bytes@);
        true
    }
}

impl Clone for CapturedString {
    fn clone(&self) -> (copy: Self)
        ensures
            copy@ == self@,
    {
        let mut bytes: Vec<u8> = Vec::new();
        let mut index: usize = 0;
        while index < self.bytes.len()
            invariant
                index <= self.bytes@.len(),
                bytes@ == self.bytes@.subrange(0, index as int),
            decreases self.bytes@.len() - index,
        {
            bytes.push(self.bytes[index]);
            index = index + 1;
        }
        assert(bytes@ =~= self.bytes@);
        CapturedString { bytes, truncated: self.truncated }
    }
}

} // verus!
