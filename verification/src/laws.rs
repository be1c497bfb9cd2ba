//! Laws that relate the operations on schemas and records to one another.

use vstd::prelude::*;
use crate::codec::{
    decode_spec, encode_spec, lemma_decode_encode, lemma_encode_decode, lemma_encode_len,
    ByteOrder,
};
use crate::config::{import_spec, Config};
use crate::error::SkipError;
use crate::layout::{
    find_field, layout_size, lemma_field_in_bounds, lemma_find_none, lemma_find_sound,
    lemma_layout_prefix, well_formed, FieldView,
};
use crate::object::{
    element_bytes, lemma_splice_apart, lemma_splice_same, lemma_splice_written, read_spec,
    write_spec, SkipObject,
};
use crate::scalar::SkipType;

verus! {

/// The fields before position `i` occupy no more than those before a later
/// position `j`.
pub proof fn lemma_layout_monotone(fs: Seq<FieldView>, i: int, j: int)
    requires
        0 <= i <= j <= fs.len(),
    ensures
        layout_size(fs.take(i)) <= layout_size(fs.take(j)),
    decreases j - i,
{
    if i < j {
        lemma_layout_monotone(fs, i, j - 1);
        lemma_layout_prefix(fs, j - 1);
    }
}

/// Every field ends where its successor starts, and the last field ends at
/// the schema's total size.
pub proof fn lemma_offsets_contiguous(c: Config, i: int)
    requires
        c.wf(),
        0 <= i < c.fields().len(),
    ensures
        i + 1 < c.fields().len() ==> c.fields()[i].offset + c.fields()[i].span()
            == c.fields()[i + 1].offset,
        i + 1 == c.fields().len() ==> c.fields()[i].offset + c.fields()[i].span() == c.total(),
{
    let fs = c.fields();
    lemma_layout_prefix(fs, i);
    if i + 1 == fs.len() {
        assert(fs.take(i + 1) =~= fs);
    }
}

/// Of two fields, the earlier one ends at or before the start of the later
/// one: fields never overlap.
pub proof fn lemma_offsets_ordered(c: Config, i: int, j: int)
    requires
        c.wf(),
        0 <= i < j < c.fields().len(),
    ensures
        c.fields()[i].offset + c.fields()[i].span() <= c.fields()[j].offset,
{
    let fs = c.fields();
    lemma_layout_prefix(fs, i);
    lemma_layout_monotone(fs, i + 1, j);
}

/// Importing the bytes that a record exports succeeds and stores exactly
/// those bytes; a record of the same schema that holds them answers every
/// read as the first record does.
pub proof fn lemma_round_trip<T: SkipType>(a: SkipObject, b: SkipObject, name: Seq<char>)
    requires
        a.wf(),
        b.config() == a.config(),
        import_spec(a.config().total(), a.bytes()) == Ok::<Seq<u8>, SkipError>(b.bytes()),
    ensures
        import_spec(a.config().total(), a.bytes()) == Ok::<Seq<u8>, SkipError>(a.bytes()),
        b.wf(),
        read_spec::<T>(b.config().fields(), b.config().order(), b.bytes(), name) == read_spec::<T>(
            a.config().fields(),
            a.config().order(),
            a.bytes(),
            name,
        ),
{
}

/// Reading or writing a field with a type of another kind than the field
/// was declared with fails with `TypeMismatch`, whatever the bytes are.
pub proof fn lemma_kind_mismatch_refused<T: SkipType>(
    fs: Seq<FieldView>,
    order: ByteOrder,
    bytes: Seq<u8>,
    name: Seq<char>,
    value: T,
)
    requires
        find_field(fs, name) is Some,
        find_field(fs, name)->Some_0.data_type != T::kind(),
    ensures
        read_spec::<T>(fs, order, bytes, name) == Err::<T, SkipError>(SkipError::TypeMismatch),
        write_spec::<T>(fs, order, bytes, name, value) == Err::<Seq<u8>, SkipError>(
            SkipError::TypeMismatch,
        ),
{
}

/// Reading or writing a name that no field of the schema has fails with
/// `FieldNotFound`.
pub proof fn lemma_unknown_field_refused<T: SkipType>(
    fs: Seq<FieldView>,
    order: ByteOrder,
    bytes: Seq<u8>,
    name: Seq<char>,
    value: T,
)
    requires
        forall|i: int| 0 <= i < fs.len() ==> (#[trigger] fs[i]).name != name,
    ensures
        read_spec::<T>(fs, order, bytes, name) == Err::<T, SkipError>(SkipError::FieldNotFound),
        write_spec::<T>(fs, order, bytes, name, value) == Err::<Seq<u8>, SkipError>(
            SkipError::FieldNotFound,
        ),
{
    lemma_find_none(fs, name);
}

/// The first elements of two distinct fields of a schema lie within the
/// total size and apart from each other.
pub proof fn lemma_elements_apart(fs: Seq<FieldView>, total: nat, i: int, j: int)
    requires
        well_formed(fs, total),
        0 <= i < fs.len(),
        0 <= j < fs.len(),
        i != j,
    ensures
        fs[i].offset + fs[i].data_type.spec_width() <= total,
        fs[j].offset + fs[j].data_type.spec_width() <= total,
        fs[i].offset + fs[i].data_type.spec_width() <= fs[j].offset || fs[j].offset
            + fs[j].data_type.spec_width() <= fs[i].offset,
{
    lemma_field_in_bounds(fs, total, i);
    lemma_field_in_bounds(fs, total, j);
    lemma_layout_prefix(fs, i);
    lemma_layout_prefix(fs, j);
    if i < j {
        lemma_layout_monotone(fs, i + 1, j);
    } else {
        lemma_layout_monotone(fs, j + 1, i);
    }
}

/// The field that a search finds stands at some position of the schema.
proof fn lemma_found_position(fs: Seq<FieldView>, name: Seq<char>) -> (i: int)
    requires
        find_field(fs, name) is Some,
    ensures
        0 <= i < fs.len(),
        fs[i] == find_field(fs, name)->Some_0,
        fs[i].name == name,
{
    lemma_find_sound(fs, name);
    let f = find_field(fs, name)->Some_0;
    choose|i: int| 0 <= i < fs.len() && fs[i] == f
}

/// A read of a field with the type it was written with gives the written
/// value back.
pub proof fn lemma_read_after_write<T: SkipType>(
    fs: Seq<FieldView>,
    total: nat,
    order: ByteOrder,
    bytes: Seq<u8>,
    name: Seq<char>,
    value: T,
)
    requires
        well_formed(fs, total),
        bytes.len() == total,
        write_spec::<T>(fs, order, bytes, name, value) is Ok,
    ensures
        read_spec::<T>(
            fs,
            order,
            write_spec::<T>(fs, order, bytes, name, value)->Ok_0,
            name,
        ) == Ok::<T, SkipError>(value),
{
    let f = find_field(fs, name)->Some_0;
    let width = f.data_type.spec_width();
    let encoded = encode_spec(value.pattern(), width, order);
    let i = lemma_found_position(fs, name);
    lemma_field_in_bounds(fs, total, i);
    T::lemma_pattern(value);
    lemma_encode_decode(value.pattern(), width, order);
    lemma_splice_written(bytes, f.offset, encoded);
}

/// Writing back the value that a field reads as leaves the bytes as they
/// are: every bit pattern is a value, and is stored as it was found.
pub proof fn lemma_write_after_read<T: SkipType>(
    fs: Seq<FieldView>,
    total: nat,
    order: ByteOrder,
    bytes: Seq<u8>,
    name: Seq<char>,
)
    requires
        well_formed(fs, total),
        bytes.len() == total,
        read_spec::<T>(fs, order, bytes, name) is Ok,
    ensures
        write_spec::<T>(fs, order, bytes, name, read_spec::<T>(fs, order, bytes, name)->Ok_0)
            == Ok::<Seq<u8>, SkipError>(bytes),
{
    let f = find_field(fs, name)->Some_0;
    let stored = element_bytes(bytes, f);
    let i = lemma_found_position(fs, name);
    lemma_field_in_bounds(fs, total, i);
    lemma_decode_encode(stored, order);
    T::lemma_from_pattern(decode_spec(stored, order));
    lemma_splice_same(bytes, f.offset, f.offset + f.data_type.spec_width());
}

/// A write to one field leaves what every other field reads as unchanged.
pub proof fn lemma_write_keeps_others<T: SkipType, U: SkipType>(
    fs: Seq<FieldView>,
    total: nat,
    order: ByteOrder,
    bytes: Seq<u8>,
    name: Seq<char>,
    value: T,
    other: Seq<char>,
)
    requires
        well_formed(fs, total),
        bytes.len() == total,
        write_spec::<T>(fs, order, bytes, name, value) is Ok,
        other != name,
    ensures
        read_spec::<U>(
            fs,
            order,
            write_spec::<T>(fs, order, bytes, name, value)->Ok_0,
            other,
        ) == read_spec::<U>(fs, order, bytes, other),
{
    if find_field(fs, other) is Some {
        let f = find_field(fs, name)->Some_0;
        let g = find_field(fs, other)->Some_0;
        let width = f.data_type.spec_width();
        let encoded = encode_spec(value.pattern(), width, order);
        let i = lemma_found_position(fs, name);
        let j = lemma_found_position(fs, other);
        lemma_elements_apart(fs, total, i, j);
        lemma_encode_len(value.pattern(), width, order);
        lemma_splice_apart(
            bytes,
            f.offset,
            encoded,
            g.offset,
            g.offset + g.data_type.spec_width(),
        );
    }
}

} // verus!
