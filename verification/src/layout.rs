//! The mathematical model of a schema: its fields, their offsets, and the
//! search for a field by name.

use vstd::prelude::*;
use crate::kind::DataType;

verus! {

/// One declared field, as plain values.
pub struct FieldView {
    /// The name, unique within its schema.
    pub name: Seq<char>,
    /// The kind of each element.
    pub data_type: DataType,
    /// The number of contiguous elements, at least one.
    pub count: nat,
    /// The position of the field's first byte.
    pub offset: nat,
    /// The field's position among the declared fields.
    pub index: nat,
}

impl FieldView {
    /// The number of bytes the field occupies.
    pub open spec fn span(self) -> nat {
        self.data_type.spec_width() * self.count
    }
}

/// The bytes that the fields occupy together.
pub open spec fn layout_size(fs: Seq<FieldView>) -> nat
    decreases fs.len(),
{
    if fs.len() == 0 {
        0
    } else {
        layout_size(fs.drop_last()) + fs.last().span()
    }
}

/// The first field of the given name, if there is one.
pub open spec fn find_field(fs: Seq<FieldView>, name: Seq<char>) -> Option<FieldView>
    decreases fs.len(),
{
    if fs.len() == 0 {
        None
    } else {
        match find_field(fs.drop_last(), name) {
            Some(f) => Some(f),
            None => if fs.last().name == name {
                Some(fs.last())
            } else {
                None
            },
        }
    }
}

/// What holds of every schema: names are unique, every field holds at least
/// one element and knows its position, every field starts where the fields
/// before it end, and the total is the sum of all spans.
pub open spec fn well_formed(fs: Seq<FieldView>, total: nat) -> bool {
    &&& total == layout_size(fs)
    &&& forall|i: int|
        0 <= i < fs.len() ==> {
            &&& (#[trigger] fs[i]).index == i
            &&& fs[i].count >= 1
            &&& fs[i].offset == layout_size(fs.take(i))
        }
    &&& forall|i: int, j: int|
        0 <= i < j < fs.len() ==> (#[trigger] fs[i]).name != (#[trigger] fs[j]).name
}

/// The field that a declaration appends to a schema of the given fields and
/// total size.
pub open spec fn appended(
    fs: Seq<FieldView>,
    total: nat,
    name: Seq<char>,
    data_type: DataType,
    count: nat,
) -> FieldView {
    FieldView { name, data_type, count, offset: total, index: fs.len() }
}

/// A search finds nothing where no field has the name.
pub proof fn lemma_find_none(fs: Seq<FieldView>, name: Seq<char>)
    requires
        forall|i: int| 0 <= i < fs.len() ==> (#[trigger] fs[i]).name != name,
    ensures
        find_field(fs, name) is None,
    decreases fs.len(),
{
    if fs.len() > 0 {
        let front = fs.drop_last();
        assert forall|i: int| 0 <= i < front.len() implies (#[trigger] front[i]).name != name by {
            assert(front[i] == fs[i]);
        }
        lemma_find_none(front, name);
    }
}

/// A search finds the first field that has the name.
pub proof fn lemma_find_first(fs: Seq<FieldView>, name: Seq<char>, i: int)
    requires
        0 <= i < fs.len(),
        fs[i].name == name,
        forall|j: int| 0 <= j < i ==> (#[trigger] fs[j]).name != name,
    ensures
        find_field(fs, name) == Some(fs[i]),
    decreases fs.len(),
{
    let front = fs.drop_last();
    if i == fs.len() - 1 {
        assert forall|j: int| 0 <= j < front.len() implies (#[trigger] front[j]).name != name by {
            assert(front[j] == fs[j]);
        }
        lemma_find_none(front, name);
    } else {
        assert(front[i] == fs[i]);
        assert forall|j: int| 0 <= j < i implies (#[trigger] front[j]).name != name by {
            assert(front[j] == fs[j]);
        }
        lemma_find_first(front, name, i);
    }
}

/// What a search finds is a field of the schema with the name asked for, and
/// it finds nothing only where no field has that name.
pub proof fn lemma_find_sound(fs: Seq<FieldView>, name: Seq<char>)
    ensures
        match find_field(fs, name) {
            Some(f) => f.name == name && exists|i: int| 0 <= i < fs.len() && fs[i] == f,
            None => forall|i: int| 0 <= i < fs.len() ==> (#[trigger] fs[i]).name != name,
        },
    decreases fs.len(),
{
    if fs.len() > 0 {
        let front = fs.drop_last();
        lemma_find_sound(front, name);
        match find_field(front, name) {
            Some(f) => {
                let i = choose|i: int| 0 <= i < front.len() && front[i] == f;
                assert(fs[i] == f);
            },
            None => {
                if fs.last().name == name {
                    assert(fs[fs.len() - 1] == fs.last());
                } else {
                    assert forall|i: int| 0 <= i < fs.len() implies (#[trigger] fs[i]).name
                        != name by {
                        if i < front.len() {
                            assert(front[i] == fs[i]);
                        }
                    }
                }
            },
        }
    }
}

/// The fields before position `i + 1` end where field `i` ends, and no
/// prefix of a schema is larger than the whole.
pub proof fn lemma_layout_prefix(fs: Seq<FieldView>, i: int)
    requires
        0 <= i < fs.len(),
    ensures
        layout_size(fs.take(i + 1)) == layout_size(fs.take(i)) + fs[i].span(),
        layout_size(fs.take(i + 1)) <= layout_size(fs),
    decreases fs.len() - i,
{
    assert(fs.take(i + 1).drop_last() =~= fs.take(i));
    if i + 1 == fs.len() {
        assert(fs.take(i + 1) =~= fs);
    } else {
        lemma_layout_prefix(fs, i + 1);
        assert(fs.take(i + 2).drop_last() =~= fs.take(i + 1));
    }
}

/// In a well-formed schema the first element of every field lies within
/// the total size.
pub proof fn lemma_field_in_bounds(fs: Seq<FieldView>, total: nat, i: int)
    requires
        well_formed(fs, total),
        0 <= i < fs.len(),
    ensures
        fs[i].offset + fs[i].data_type.spec_width() <= fs[i].offset + fs[i].span() <= total,
{
    lemma_layout_prefix(fs, i);
    let w = fs[i].data_type.spec_width();
    let c = fs[i].count;
    assert(w <= w * c) by (nonlinear_arith)
        requires
            c >= 1,
    ;
}

/// Appending a field of a new name and at least one element, placed at the
/// current total, keeps a schema well-formed.
pub proof fn lemma_append_well_formed(
    fs: Seq<FieldView>,
    total: nat,
    name: Seq<char>,
    data_type: DataType,
    count: nat,
)
    requires
        well_formed(fs, total),
        find_field(fs, name) is None,
        count >= 1,
    ensures
        well_formed(
            fs.push(appended(fs, total, name, data_type, count)),
            total + data_type.spec_width() * count,
        ),
{
    let f = appended(fs, total, name, data_type, count);
    let gs = fs.push(f);
    lemma_find_sound(fs, name);
    assert(gs.drop_last() =~= fs);
    assert forall|i: int| 0 <= i < gs.len() implies {
        &&& (#[trigger] gs[i]).index == i
        &&& gs[i].count >= 1
        &&& gs[i].offset == layout_size(gs.take(i))
    } by {
        if i < fs.len() {
            assert(gs[i] == fs[i]);
            assert(gs.take(i) =~= fs.take(i));
        } else {
            assert(gs.take(i) =~= fs);
        }
    }
    assert forall|i: int, j: int| 0 <= i < j < gs.len() implies (#[trigger] gs[i]).name != (
    #[trigger] gs[j]).name by {
        assert(gs[i] == fs[i]);
        if j < fs.len() {
            assert(gs[j] == fs[j]);
        }
    }
}

} // verus!
