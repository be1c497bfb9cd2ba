//! The record: a byte buffer laid out by a schema, read and written by field
//! name.

use vstd::prelude::*;
use crate::codec::{decode, decode_spec, encode, encode_spec, lemma_decode_encode, ByteOrder};
use crate::config::Config;
use crate::error::SkipError;
use crate::layout::{find_field, lemma_field_in_bounds, lemma_find_sound, FieldView};
use crate::scalar::SkipType;

verus! {

/// `bytes` with `src` written over it from position `offset` on.
pub open spec fn splice(bytes: Seq<u8>, offset: nat, src: Seq<u8>) -> Seq<u8> {
    Seq::new(
        bytes.len(),
        |i: int|
            if offset <= i < offset + src.len() {
                src[i - offset]
            } else {
                bytes[i]
            },
    )
}

/// What was written over a range is what the range then holds.
pub proof fn lemma_splice_written(bytes: Seq<u8>, offset: nat, src: Seq<u8>)
    requires
        offset + src.len() <= bytes.len(),
    ensures
        splice(bytes, offset, src).subrange(offset as int, (offset + src.len()) as int) == src,
{
    assert(splice(bytes, offset, src).subrange(offset as int, (offset + src.len()) as int)
        =~= src);
}

/// A range that lies apart from the one written over holds what it held.
pub proof fn lemma_splice_apart(bytes: Seq<u8>, offset: nat, src: Seq<u8>, lo: nat, hi: nat)
    requires
        lo <= hi <= bytes.len(),
        hi <= offset || offset + src.len() <= lo,
    ensures
        splice(bytes, offset, src).subrange(lo as int, hi as int) == bytes.subrange(
            lo as int,
            hi as int,
        ),
{
    assert(splice(bytes, offset, src).subrange(lo as int, hi as int) =~= bytes.subrange(
        lo as int,
        hi as int,
    ));
}

/// Writing over a range what it holds changes nothing.
pub proof fn lemma_splice_same(bytes: Seq<u8>, lo: nat, hi: nat)
    requires
        lo <= hi <= bytes.len(),
    ensures
        splice(bytes, lo, bytes.subrange(lo as int, hi as int)) == bytes,
{
    assert(splice(bytes, lo, bytes.subrange(lo as int, hi as int)) =~= bytes);
}

/// The bytes of the first element of field `f`.
pub open spec fn element_bytes(bytes: Seq<u8>, f: FieldView) -> Seq<u8> {
    bytes.subrange(f.offset as int, (f.offset + f.data_type.spec_width()) as int)
}

/// What reading field `name` as a `T` gives, from a record of the given
/// fields, byte order and bytes.
pub open spec fn read_spec<T: SkipType>(
    fs: Seq<FieldView>,
    order: ByteOrder,
    bytes: Seq<u8>,
    name: Seq<char>,
) -> Result<T, SkipError> {
    match find_field(fs, name) {
        None => Err(SkipError::FieldNotFound),
        Some(f) => if f.data_type != T::kind() {
            Err(SkipError::TypeMismatch)
        } else {
            Ok(T::from_pattern(decode_spec(element_bytes(bytes, f), order)))
        },
    }
}

/// The bytes of a record after `value` is written to field `name`.
pub open spec fn write_spec<T: SkipType>(
    fs: Seq<FieldView>,
    order: ByteOrder,
    bytes: Seq<u8>,
    name: Seq<char>,
    value: T,
) -> Result<Seq<u8>, SkipError> {
    match find_field(fs, name) {
        None => Err(SkipError::FieldNotFound),
        Some(f) => if f.data_type != T::kind() {
            Err(SkipError::TypeMismatch)
        } else {
            Ok(splice(bytes, f.offset, encode_spec(value.pattern(), f.data_type.spec_width(), order)))
        },
    }
}

/// A record: a byte buffer of exactly the size its schema lays out.
pub struct SkipObject<'a> {
    pub(crate) config: &'a Config,
    pub(crate) buffer: Vec<u8>,
}

impl<'a> SkipObject<'a> {
    /// The schema the record is laid out by.
    pub closed spec fn config(&self) -> Config {
        *self.config
    }

    /// The record's bytes.
    pub closed spec fn bytes(&self) -> Seq<u8> {
        self.buffer@
    }

    /// The record's invariant: its schema is well-formed and its buffer has
    /// the schema's size.
    pub open spec fn wf(&self) -> bool {
        &&& self.config().wf()
        &&& self.bytes().len() == self.config().total()
    }

    /// A record of the given schema with every byte zero.
    pub(crate) fn zeroed(config: &'a Config) -> (obj: SkipObject<'a>)
        ensures
            obj.config() == *config,
            obj.bytes() == Seq::new(config.total(), |i: int| 0u8),
    {
        let size: usize = config.total_size();
        let mut buffer: Vec<u8> = Vec::new();
        let mut i: usize = 0;
        while i < size
            invariant
                i <= size,
                buffer@.len() == i,
                forall|j: int| 0 <= j < i ==> buffer@[j] == 0u8,
            decreases size - i,
        {
            buffer.push(0u8);
            i += 1;
        }
        assert(buffer@ =~= Seq::new(config.total(), |i: int| 0u8));
        SkipObject { config, buffer }
    }

    /// A record of the given schema that holds a copy of `data`.
    pub(crate) fn copied(config: &'a Config, data: &[u8]) -> (obj: SkipObject<'a>)
        ensures
            obj.config() == *config,
            obj.bytes() == data@,
    {
        let n: usize = data.len();
        let mut buffer: Vec<u8> = Vec::new();
        let mut i: usize = 0;
        while i < n
            invariant
                n == data@.len(),
                i <= n,
                buffer@.len() == i,
                forall|j: int| 0 <= j < i ==> buffer@[j] == data@[j],
            decreases n - i,
        {
            buffer.push(data[i]);
            i += 1;
        }
        assert(buffer@ =~= data@);
        SkipObject { config, buffer }
    }

    /// A copy of `len` bytes from position `offset` on.
    pub fn read_raw(&self, offset: usize, len: usize) -> (out: Vec<u8>)
        requires
            offset + len <= self.bytes().len(),
        ensures
            out@ == self.bytes().subrange(offset as int, offset + len),
    {
        let size: usize = self.buffer.len();
        let mut out: Vec<u8> = Vec::new();
        let mut i: usize = 0;
        while i < len
            invariant
                size == self.buffer@.len(),
                offset + len <= size,
                i <= len,
                out@.len() == i,
                forall|j: int| 0 <= j < i ==> out@[j] == self.buffer@[offset + j],
            decreases len - i,
        {
            out.push(self.buffer[offset + i]);
            i += 1;
        }
        assert(out@ =~= self.bytes().subrange(offset as int, offset + len));
        out
    }

    /// Writes `src` over the bytes from position `offset` on.
    pub fn write_raw(&mut self, offset: usize, src: &[u8])
        requires
            offset + src@.len() <= old(self).bytes().len(),
        ensures
            final(self).bytes() == splice(old(self).bytes(), offset as nat, src@),
            final(self).config() == old(self).config(),
    {
        let n: usize = src.len();
        let size: usize = self.buffer.len();
        let mut i: usize = 0;
        while i < n
            invariant
                n == src@.len(),
                size == self.buffer@.len(),
                i <= n,
                self.config == old(self).config,
                size == old(self).buffer@.len(),
                offset + n <= size,
                forall|j: int|
                    0 <= j < self.buffer@.len() ==> self.buffer@[j] == if offset <= j < offset
                        + i {
                        src@[j - offset]
                    } else {
                        old(self).buffer@[j]
                    },
            decreases n - i,
        {
            self.buffer.set(offset + i, src[i]);
            i += 1;
        }
        assert(self.bytes() =~= splice(old(self).bytes(), offset as nat, src@));
    }

    /// Writes `value` to the first element of field `name`, if the field is
    /// declared and its kind is that of `T`. A refused write changes nothing.
    pub fn set<T: SkipType>(&mut self, name: &str, value: T) -> (r: Result<(), SkipError>)
        requires
            old(self).wf(),
        ensures
            final(self).wf(),
            final(self).config() == old(self).config(),
            match write_spec(
                old(self).config().fields(),
                old(self).config().order(),
                old(self).bytes(),
                name@,
                value,
            ) {
                Ok(bytes) => r is Ok && final(self).bytes() == bytes,
                Err(e) => r == Err::<(), SkipError>(e) && final(self).bytes() == old(self).bytes(),
            },
    {
        let config: &Config = self.config;
        match config.lookup(name) {
            None => Err(SkipError::FieldNotFound),
            Some(field) => {
                if field.data_type != T::data_type() {
                    Err(SkipError::TypeMismatch)
                } else {
                    proof {
                        lemma_find_sound(config.fields(), name@);
                        let i = choose|i: int|
                            0 <= i < config.fields().len() && config.fields()[i] == field@;
                        lemma_field_in_bounds(config.fields(), config.total(), i);
                    }
                    let encoded = encode(value.to_bits(), field.data_type.width(), config.byte_order());
                    self.write_raw(field.offset, encoded.as_slice());
                    Ok(())
                }
            },
        }
    }

    /// Reads the first element of field `name` as a `T`, if the field is
    /// declared and its kind is that of `T`.
    pub fn get<T: SkipType>(&self, name: &str) -> (r: Result<T, SkipError>)
        requires
            self.wf(),
        ensures
            r == read_spec::<T>(self.config().fields(), self.config().order(), self.bytes(), name@),
    {
        match self.config.lookup(name) {
            None => Err(SkipError::FieldNotFound),
            Some(field) => {
                if field.data_type != T::data_type() {
                    Err(SkipError::TypeMismatch)
                } else {
                    proof {
                        lemma_find_sound(self.config.fields(), name@);
                        let i = choose|i: int|
                            0 <= i < self.config.fields().len() && self.config.fields()[i]
                                == field@;
                        lemma_field_in_bounds(self.config.fields(), self.config.total(), i);
                    }
                    let raw = self.read_raw(field.offset, field.data_type.width());
                    proof {
                        lemma_decode_encode(raw@, self.config.order());
                    }
                    let bits = decode(raw.as_slice(), self.config.byte_order());
                    Ok(T::from_bits(bits))
                }
            },
        }
    }

    /// A copy of the record's bytes.
    pub fn to_bytes(&self) -> (out: Vec<u8>)
        ensures
            out@ == self.bytes(),
    {
        let out = self.read_raw(0, self.buffer.len());
        assert(self.bytes().subrange(0, self.bytes().len() as int) =~= self.bytes());
        out
    }
}

} // verus!
