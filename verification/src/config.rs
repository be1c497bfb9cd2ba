//! The schema: an ordered list of typed fields and the layout it fixes.

use vstd::prelude::*;
use crate::codec::ByteOrder;
use crate::error::SkipError;
use crate::kind::DataType;
use crate::layout::{
    appended, find_field, lemma_append_well_formed, lemma_find_first, lemma_find_none,
    well_formed, FieldView,
};
use crate::object::SkipObject;

verus! {

/// One declared field.
pub struct Field {
    /// The name, unique within its schema.
    pub name: String,
    /// The kind of each element.
    pub data_type: DataType,
    /// The number of contiguous elements.
    pub count: u64,
    /// The position of the field's first byte.
    pub offset: usize,
    /// The field's position among the declared fields.
    pub index: usize,
}

impl View for Field {
    type V = FieldView;

    open spec fn view(&self) -> FieldView {
        FieldView {
            name: self.name@,
            data_type: self.data_type,
            count: self.count as nat,
            offset: self.offset as nat,
            index: self.index as nat,
        }
    }
}

/// A schema: fields in the order they were declared, laid out one after the
/// other without padding, in the byte order the schema was made with.
pub struct Config {
    fields: Vec<Field>,
    size: usize,
    order: ByteOrder,
}

impl Config {
    /// The declared fields, in order.
    pub closed spec fn fields(&self) -> Seq<FieldView> {
        Seq::new(self.fields@.len(), |i: int| self.fields@[i]@)
    }

    /// The number of bytes a record of this schema occupies.
    pub closed spec fn total(&self) -> nat {
        self.size as nat
    }

    /// The byte order in which scalars are stored.
    pub closed spec fn order(&self) -> ByteOrder {
        self.order
    }

    /// The schema's invariant.
    pub open spec fn wf(&self) -> bool {
        well_formed(self.fields(), self.total())
    }

    /// An empty schema that stores scalars in the given byte order.
    pub fn with_order(order: ByteOrder) -> (c: Config)
        ensures
            c.wf(),
            c.fields() == Seq::<FieldView>::empty(),
            c.total() == 0,
            c.order() == order,
    {
        let c = Config { fields: Vec::new(), size: 0, order };
        assert(c.fields() =~= Seq::<FieldView>::empty());
        c
    }

    /// An empty schema that stores scalars in the machine's byte order.
    pub fn new() -> (c: Config)
        ensures
            c.wf(),
            c.fields() == Seq::<FieldView>::empty(),
            c.total() == 0,
    {
        Self::with_order(ByteOrder::native())
    }

    /// The number of bytes a record of this schema occupies.
    pub fn total_size(&self) -> (n: usize)
        ensures
            n == self.total(),
    {
        self.size
    }

    /// The number of declared fields.
    pub fn field_count(&self) -> (n: usize)
        ensures
            n == self.fields().len(),
    {
        self.fields.len()
    }

    /// The byte order in which scalars are stored.
    pub fn byte_order(&self) -> (order: ByteOrder)
        ensures
            order == self.order(),
    {
        self.order
    }

    /// The field of the given name, if one is declared.
    pub fn lookup(&self, name: &str) -> (r: Option<&Field>)
        ensures
            match r {
                Some(f) => find_field(self.fields(), name@) == Some(f@),
                None => find_field(self.fields(), name@) is None,
            },
    {
        let key: String = name.to_owned();
        let n: usize = self.fields.len();
        let mut i: usize = 0;
        while i < n
            invariant
                n == self.fields@.len(),
                i <= n,
                key@ == name@,
                forall|j: int| 0 <= j < i ==> (#[trigger] self.fields()[j]).name != name@,
            decreases n - i,
        {
            if self.fields[i].name == key {
                proof {
                    lemma_find_first(self.fields(), name@, i as int);
                }
                return Some(&self.fields[i]);
            }
            i += 1;
        }
        proof {
            lemma_find_none(self.fields(), name@);
        }
        None
    }

    /// Declares a field after those already declared. It starts where the
    /// last one ends. A name that is already declared, or a count of zero,
    /// is refused and leaves the schema as it was.
    pub fn add_field(&mut self, name: &str, data_type: DataType, count: u64) -> (r: Result<
        (),
        SkipError,
    >)
        requires
            old(self).wf(),
            find_field(old(self).fields(), name@) is None ==> old(self).total()
                + data_type.spec_width() * count <= usize::MAX,
        ensures
            final(self).wf(),
            final(self).order() == old(self).order(),
            r == if find_field(old(self).fields(), name@) is Some {
                Err::<(), SkipError>(SkipError::DuplicateFieldName)
            } else if count == 0 {
                Err::<(), SkipError>(SkipError::InvalidFieldCount)
            } else {
                Ok::<(), SkipError>(())
            },
            r is Err ==> final(self).fields() == old(self).fields() && final(self).total() == old(
                self,
            ).total(),
            r is Ok ==> final(self).fields() == old(self).fields().push(
                appended(
                    old(self).fields(),
                    old(self).total(),
                    name@,
                    data_type,
                    count as nat,
                ),
            ) && final(self).total() == old(self).total() + data_type.spec_width() * count,
    {
        if self.lookup(name).is_some() {
            return Err(SkipError::DuplicateFieldName);
        }
        if count == 0 {
            return Err(SkipError::InvalidFieldCount);
        }
        let width: usize = data_type.width();
        proof {
            assert(count <= width * count) by (nonlinear_arith)
                requires
                    width >= 1,
            ;
            lemma_append_well_formed(
                self.fields(),
                self.total(),
                name@,
                data_type,
                count as nat,
            );
        }
        let span: usize = width * (count as usize);
        let field = Field {
            name: name.to_owned(),
            data_type,
            count,
            offset: self.size,
            index: self.fields.len(),
        };
        self.fields.push(field);
        self.size = self.size + span;
        proof {
            assert(self.fields() =~= old(self).fields().push(
                appended(
                    old(self).fields(),
                    old(self).total(),
                    name@,
                    data_type,
                    count as nat,
                ),
            ));
        }
        Ok(())
    }

    /// A record of this schema with every byte zero.
    pub fn create_object(&self) -> (obj: SkipObject<'_>)
        requires
            self.wf(),
        ensures
            obj.wf(),
            obj.config() == *self,
            obj.bytes() == Seq::new(self.total(), |i: int| 0u8),
    {
        SkipObject::zeroed(self)
    }

    /// A record of this schema that holds a copy of the given bytes. They
    /// are taken as they are; only their number is checked.
    pub fn from_bytes(&self, data: &[u8]) -> (r: Result<SkipObject<'_>, SkipError>)
        requires
            self.wf(),
        ensures
            match r {
                Ok(obj) => import_spec(self.total(), data@) == Ok::<Seq<u8>, SkipError>(
                    obj.bytes(),
                ) && obj.wf() && obj.config() == *self,
                Err(e) => import_spec(self.total(), data@) == Err::<Seq<u8>, SkipError>(e),
            },
    {
        if data.len() != self.size {
            return Err(SkipError::LengthMismatch);
        }
        Ok(SkipObject::copied(self, data))
    }
}

/// What an import of `data` into a schema of `total` bytes stores: the bytes
/// as they are, or nothing where their number is not `total`.
pub open spec fn import_spec(total: nat, data: Seq<u8>) -> Result<Seq<u8>, SkipError> {
    if data.len() == total {
        Ok(data)
    } else {
        Err(SkipError::LengthMismatch)
    }
}

} // verus!
