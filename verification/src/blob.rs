//! Blobs: the bytes of a font, or of one of its tables.

use vstd::prelude::*;
use vstd::std_specs::convert::FromSpecImpl;

verus! {

/// How a blob holds its bytes, which decides whether they can be written.
#[derive(Clone, Copy, Debug, PartialEq, Eq, Hash, Structural)]
pub enum MemoryMode {
    /// The bytes are a copy that is only read.
    Duplicate,
    /// The bytes are only read.
    Readonly,
    /// The bytes can be written.
    Writable,
    /// The bytes are only read so far, and can be made writable.
    ReadonlyMayMakeWritable,
}

/// What a blob holds, as plain values.
pub ghost struct BlobModel {
    /// The bytes.
    pub data: Seq<u8>,
    /// How the blob holds them.
    pub mode: MemoryMode,
    /// Whether the blob may no longer be changed.
    pub immutable: bool,
}

impl BlobModel {
    /// Whether the bytes can be written: the blob may still be changed, and
    /// its bytes are writable or can be made so.
    pub open spec fn writable(self) -> bool {
        !self.immutable && (self.mode == MemoryMode::Writable || self.mode
            == MemoryMode::ReadonlyMayMakeWritable)
    }

    /// The part of a blob that a sub-blob shows: `length` bytes from
    /// `offset` on, or as many as there are.
    pub open spec fn part(self, offset: u32, length: u32) -> Seq<u8> {
        if offset >= self.data.len() {
            Seq::empty()
        } else if offset + length <= self.data.len() {
            self.data.subrange(offset as int, offset + length)
        } else {
            self.data.subrange(offset as int, self.data.len() as int)
        }
    }
}

/// A run of bytes.
pub struct Blob {
    data: Vec<u8>,
    mode: MemoryMode,
    immutable: bool,
}

impl View for Blob {
    type V = BlobModel;

    closed spec fn view(&self) -> BlobModel {
        BlobModel { data: self.data@, mode: self.mode, immutable: self.immutable }
    }
}

/// A copy of some bytes.
pub fn copy_bytes(bytes: &[u8], start: usize, end: usize) -> (copy: Vec<u8>)
    requires
        start <= end <= bytes@.len(),
    ensures
        copy@ == bytes@.subrange(start as int, end as int),
{
    let mut copy: Vec<u8> = Vec::new();
    let mut i: usize = start;
    while i < end
        invariant
            start <= i <= end <= bytes@.len(),
            copy@ == bytes@.subrange(start as int, i as int),
        decreases end - i,
    {
        copy.push(bytes[i]);
        i = i + 1;
        assert(copy@ =~= bytes@.subrange(start as int, i as int));
    }
    copy
}

impl Blob {
    /// A blob of the given bytes, held in the given way.
    pub fn new(data: Vec<u8>, mode: MemoryMode) -> (blob: Blob)
        ensures
            blob@ == (BlobModel { data: data@, mode, immutable: false }),
    {
        Blob { data, mode, immutable: false }
    }

    /// A blob of the given bytes, which are only read.
    pub fn from_vec(data: Vec<u8>) -> (blob: Blob)
        ensures
            blob@ == (BlobModel { data: data@, mode: MemoryMode::Readonly, immutable: false }),
    {
        Blob { data, mode: MemoryMode::Readonly, immutable: false }
    }

    /// A blob of a copy of the given bytes, which are only read.
    pub fn from_slice(data: &[u8]) -> (blob: Blob)
        ensures
            blob@ == (BlobModel { data: data@, mode: MemoryMode::Readonly, immutable: false }),
    {
        let copy = copy_bytes(data, 0, data.len());
        assert(data@.subrange(0, data@.len() as int) =~= data@);
        Blob { data: copy, mode: MemoryMode::Readonly, immutable: false }
    }

    /// The blob of no bytes, which can never be changed.
    pub fn get_empty() -> (blob: Blob)
        ensures
            blob@ == (BlobModel {
                data: Seq::empty(),
                mode: MemoryMode::Readonly,
                immutable: true,
            }),
    {
        Blob { data: Vec::new(), mode: MemoryMode::Readonly, immutable: true }
    }

    /// A blob of a part of this one: `length` bytes from `offset` on, or as
    /// many as there are. The part is only read.
    pub fn create_sub_blob(&self, offset: u32, length: u32) -> (sub: Blob)
        ensures
            sub@ == (BlobModel {
                data: self@.part(offset, length),
                mode: MemoryMode::Readonly,
                immutable: false,
            }),
    {
        let n: usize = self.data.len();
        let start: usize = offset as usize;
        if start >= n {
            return Blob { data: Vec::new(), mode: MemoryMode::Readonly, immutable: false };
        }
        let end: usize = if length as usize <= n - start {
            start + length as usize
        } else {
            n
        };
        let data = copy_bytes(self.data.as_slice(), start, end);
        Blob { data, mode: MemoryMode::Readonly, immutable: false }
    }

    /// The number of bytes, or the largest number of 32 bits where there
    /// are more.
    pub fn len(&self) -> (len: u32)
        ensures
            len == (if self@.data.len() <= 0xFFFF_FFFF {
                self@.data.len() as int
            } else {
                0xFFFF_FFFF
            }),
    {
        if self.data.len() <= 0xFFFF_FFFF {
            self.data.len() as u32
        } else {
            0xFFFF_FFFF
        }
    }

    /// The bytes.
    pub fn data(&self) -> (data: &[u8])
        ensures
            data@ == self@.data,
    {
        self.data.as_slice()
    }

    /// How the blob holds its bytes.
    pub fn mode(&self) -> (mode: MemoryMode)
        ensures
            mode == self@.mode,
    {
        self.mode
    }

    /// Forbids further changes of the blob.
    pub fn make_immutable(&mut self)
        ensures
            final(self)@ == (BlobModel { immutable: true, ..old(self)@ }),
    {
        self.immutable = true;
    }

    /// Whether the blob may no longer be changed.
    pub fn is_immutable(&self) -> (immutable: bool)
        ensures
            immutable == self@.immutable,
    {
        self.immutable
    }

    /// Writes one byte, where the bytes can be written and `index` is the
    /// place of one. Says whether it did. Bytes that could be made writable
    /// are writable from then on.
    pub fn write(&mut self, index: u32, byte: u8) -> (ok: bool)
        ensures
            ok == (old(self)@.writable() && index < old(self)@.data.len()),
            final(self)@ == (if ok {
                BlobModel {
                    data: old(self)@.data.update(index as int, byte),
                    mode: MemoryMode::Writable,
                    immutable: false,
                }
            } else {
                old(self)@
            }),
    {
        if self.immutable {
            return false;
        }
        match self.mode {
            MemoryMode::Writable => {},
            MemoryMode::ReadonlyMayMakeWritable => {},
            _ => {
                return false;
            },
        }
        if index as usize >= self.data.len() {
            return false;
        }
        self.mode = MemoryMode::Writable;
        self.data[index as usize] = byte;
        true
    }

    /// The bytes, to be written, where they can be: see
    /// `BlobModel::writable`. Bytes that could be made writable are writable
    /// from then on.
    pub fn data_mut(&mut self) -> (data: Option<&mut [u8]>)
        ensures
            data is Some <==> old(self)@.writable(),
            data is None ==> final(self)@ == old(self)@,
            data is Some ==> data->0@ == old(self)@.data && final(self)@ == (BlobModel {
                data: final(data->0)@,
                mode: MemoryMode::Writable,
                immutable: false,
            }),
    {
        if self.immutable {
            return None;
        }
        match self.mode {
            MemoryMode::Writable => {},
            MemoryMode::ReadonlyMayMakeWritable => {},
            _ => {
                return None;
            },
        }
        self.mode = MemoryMode::Writable;
        Some(self.data.as_mut_slice())
    }
}

/// A blob of the given bytes, which are only read.
impl From<Vec<u8>> for Blob {
    fn from(data: Vec<u8>) -> (blob: Blob)
        ensures
            blob@ == (BlobModel { data: data@, mode: MemoryMode::Readonly, immutable: false }),
    {
        Blob::from_vec(data)
    }
}

/// Two blobs that hold the same are not for that reason one value, so no
/// blob can be named as the result of the conversion: what `from` gives is
/// said by its own contract.
impl FromSpecImpl<Vec<u8>> for Blob {
    open spec fn obeys_from_spec() -> bool {
        false
    }

    open spec fn from_spec(data: Vec<u8>) -> Blob {
        arbitrary()
    }
}

/// A blob of a copy of the given bytes, which are only read.
impl From<&'static [u8]> for Blob {
    fn from(data: &'static [u8]) -> (blob: Blob)
        ensures
            blob@ == (BlobModel { data: data@, mode: MemoryMode::Readonly, immutable: false }),
    {
        Blob::from_slice(data)
    }
}

/// As for the conversion from a vector, the contract of `from` says what
/// the blob holds.
impl FromSpecImpl<&'static [u8]> for Blob {
    open spec fn obeys_from_spec() -> bool {
        false
    }

    open spec fn from_spec(data: &'static [u8]) -> Blob {
        arbitrary()
    }
}

} // verus!
