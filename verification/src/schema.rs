//! Schemas: the names and logical types of the columns of a batch.


use vstd::prelude::*;
use vstd::string::*;

verus! {

/// The logical type of a column.
#[derive(Debug, Clone, Copy, PartialEq, Eq, Structural)]
pub enum DataType {
    Int32,
    Int64,
    /// 32-bit IEEE 754 values, held as their bit patterns.
    Float32,
    /// 64-bit IEEE 754 values, held as their bit patterns.
    Float64,
    Utf8,
    Boolean,
}

/// One field of a schema.
#[derive(Debug, Clone)]
pub struct Field {
    pub name: String,
    pub data_type: DataType,
    pub nullable: bool,
}

/// A field as contracts see it.
pub struct FieldView {
    pub name: Seq<char>,
    pub data_type: DataType,
    pub nullable: bool,
}

impl View for Field {
    type V = FieldView;

    open spec fn view(&self) -> FieldView {
        FieldView { name: self.name@, data_type: self.data_type, nullable: self.nullable }
    }
}

impl Field {
    /// A field with the given name, type and nullability.
    pub fn new(name: &str, data_type: DataType, nullable: bool) -> (f: Field)
        ensures
            f@ == (FieldView { name: name@, data_type, nullable }),
    {
        Field { name: String::from_str(name), data_type, nullable }
    }

    /// A copy of this field.
    pub fn duplicate(&self) -> (f: Field)
        ensures
            f@ == self@,
    {
        Field { name: self.name.clone(), data_type: self.data_type, nullable: self.nullable }
    }
}

/// An ordered list of fields.
#[derive(Debug, Clone)]
pub struct Schema {
    pub fields: Vec<Field>,
}

impl View for Schema {
    type V = Seq<FieldView>;

    open spec fn view(&self) -> Seq<FieldView> {
        Seq::new(self.fields@.len(), |i: int| self.fields@[i]@)
    }
}

/// Two schemas agree when they have the same fields, by name and type, in
/// the same order.
pub open spec fn spec_same_schema(a: Seq<FieldView>, b: Seq<FieldView>) -> bool {
    &&& a.len() == b.len()
    &&& forall|i: int|
        0 <= i < a.len() ==> (#[trigger] a[i]).name == b[i].name && a[i].data_type
            == b[i].data_type
}

/// Every schema agrees with itself.
pub proof fn lemma_same_schema_reflexive(a: Seq<FieldView>)
    ensures
        spec_same_schema(a, a),
{
}

/// The position of the first field called `name`, if there is one.
pub open spec fn spec_position(fields: Seq<FieldView>, name: Seq<char>) -> Option<int>
    decreases fields.len(),
{
    if fields.len() == 0 {
        None
    } else if fields[0].name == name {
        Some(0)
    } else {
        match spec_position(fields.subrange(1, fields.len() as int), name) {
            Some(p) => Some(p + 1),
            None => None,
        }
    }
}

/// `spec_position` finds the least index whose field has the name, and
/// finds none only when no field has it.
pub proof fn lemma_position(fields: Seq<FieldView>, name: Seq<char>)
    ensures
        match spec_position(fields, name) {
            Some(p) => 0 <= p < fields.len() && fields[p].name == name && forall|j: int|
                0 <= j < p ==> (#[trigger] fields[j]).name != name,
            None => forall|j: int| 0 <= j < fields.len() ==> (#[trigger] fields[j]).name != name,
        },
    decreases fields.len(),
{
    if fields.len() == 0 {
    } else if fields[0].name == name {
    } else {
        let rest = fields.subrange(1, fields.len() as int);
        lemma_position(rest, name);
        match spec_position(rest, name) {
            Some(p) => {
                assert forall|j: int| 0 <= j < p + 1 implies (#[trigger] fields[j]).name
                    != name by {
                    if j > 0 {
                        assert(rest[j - 1] == fields[j]);
                    }
                }
                assert(rest[p] == fields[p + 1]);
            },
            None => {
                assert forall|j: int| 0 <= j < fields.len() implies (#[trigger] fields[j]).name
                    != name by {
                    if j > 0 {
                        assert(rest[j - 1] == fields[j]);
                    }
                }
            },
        }
    }
}

/// An index at which the name stands, with no earlier one, is the position
/// that `spec_position` finds.
pub proof fn lemma_position_is(fields: Seq<FieldView>, name: Seq<char>, p: int)
    requires
        0 <= p < fields.len(),
        fields[p].name == name,
        forall|j: int| 0 <= j < p ==> (#[trigger] fields[j]).name != name,
    ensures
        spec_position(fields, name) == Some(p),
{
    lemma_position(fields, name);
}

/// No field has the name: `spec_position` finds none.
pub proof fn lemma_position_none(fields: Seq<FieldView>, name: Seq<char>)
    requires
        forall|j: int| 0 <= j < fields.len() ==> (#[trigger] fields[j]).name != name,
    ensures
        spec_position(fields, name) is None,
{
    lemma_position(fields, name);
}

impl Schema {
    /// A schema of the given fields.
    pub fn new(fields: Vec<Field>) -> (s: Schema)
        ensures
            s.fields == fields,
    {
        Schema { fields }
    }

    /// The number of fields.
    pub fn len(&self) -> (n: usize)
        ensures
            n == self@.len(),
    {
        self.fields.len()
    }

    /// Whether `other` has the same fields by name and type.
    pub fn same_as(&self, other: &Schema) -> (r: bool)
        ensures
            r == spec_same_schema(self@, other@),
    {
        if self.fields.len() != other.fields.len() {
            return false;
        }
        let n = self.fields.len();
        let mut i: usize = 0;
        while i < n
            invariant
                n == self.fields.len(),
                n == other.fields.len(),
                i <= n,
                forall|j: int|
                    0 <= j < i ==> (#[trigger] self@[j]).name == other@[j].name && self@[j].data_type
                        == other@[j].data_type,
            decreases n - i,
        {
            let a = &self.fields[i];
            let b = &other.fields[i];
            if !(a.name == b.name) || a.data_type != b.data_type {
                assert(self@[i as int].name != other@[i as int].name || self@[i as int].data_type
                    != other@[i as int].data_type);
                return false;
            }
            i += 1;
        }
        true
    }

    /// The index of the first field called `name`.
    pub fn position(&self, name: &String) -> (r: Option<usize>)
        ensures
            match r {
                Some(p) => spec_position(self@, name@) == Some(p as int) && p < self@.len(),
                None => spec_position(self@, name@) is None,
            },
    {
        let n = self.fields.len();
        let mut i: usize = 0;
        while i < n
            invariant
                n == self.fields.len(),
                i <= n,
                forall|j: int| 0 <= j < i ==> (#[trigger] self@[j]).name != name@,
            decreases n - i,
        {
            if self.fields[i].name == *name {
                proof {
                    lemma_position_is(self@, name@, i as int);
                }
                return Some(i);
            }
            i += 1;
        }
        proof {
            lemma_position_none(self@, name@);
        }
        None
    }

    /// A copy of this schema.
    pub fn duplicate(&self) -> (s: Schema)
        ensures
            s@ == self@,
    {
        let n = self.fields.len();
        let mut fields: Vec<Field> = Vec::new();
        let mut i: usize = 0;
        while i < n
            invariant
                n == self.fields.len(),
                i <= n,
                fields@.len() == i,
                forall|j: int| 0 <= j < i ==> (#[trigger] fields@[j])@ == self.fields@[j]@,
            decreases n - i,
        {
            fields.push(self.fields[i].duplicate());
            i += 1;
        }
        let s = Schema { fields };
        assert(s@ =~= self@);
        s
    }
}

} // verus!
