//! Structured values and the schemas they are held to.

use vstd::prelude::*;
use vstd::string::*;

verus! {

/// The kind of a value.
#[derive(Clone, Copy, Debug, PartialEq, Eq, Structural)]
pub enum Kind {
    Boolean,
    Integer,
    Text,
}

/// A value of a field.
#[derive(Debug, PartialEq, Eq)]
pub enum Value {
    Boolean(bool),
    Integer(i64),
    Text(String),
}

/// A value as a plain value.
pub enum ValueView {
    Boolean(bool),
    Integer(i64),
    Text(Seq<char>),
}

impl View for Value {
    type V = ValueView;

    open spec fn view(&self) -> ValueView {
        match self {
            Value::Boolean(b) => ValueView::Boolean(*b),
            Value::Integer(n) => ValueView::Integer(*n),
            Value::Text(text) => ValueView::Text(text@),
        }
    }
}

impl Clone for Value {
    fn clone(&self) -> (copy: Self)
        ensures
            copy == *self,
    {
        match self {
            Value::Boolean(b) => Value::Boolean(*b),
            Value::Integer(n) => Value::Integer(*n),
            Value::Text(text) => Value::Text(text.clone()),
        }
    }
}

/// The kind of a value.
pub open spec fn kind_of(value: ValueView) -> Kind {
    match value {
        ValueView::Boolean(_) => Kind::Boolean,
        ValueView::Integer(_) => Kind::Integer,
        ValueView::Text(_) => Kind::Text,
    }
}

impl Value {
    /// The kind of this value.
    pub fn kind(&self) -> (kind: Kind)
        ensures
            kind == kind_of(self@),
    {
        match self {
            Value::Boolean(_) => Kind::Boolean,
            Value::Integer(_) => Kind::Integer,
            Value::Text(_) => Kind::Text,
        }
    }
}

/// A named value.
#[derive(Debug, PartialEq, Eq)]
pub struct Field {
    pub name: String,
    pub value: Value,
}

/// A field as a plain value.
pub struct FieldView {
    pub name: Seq<char>,
    pub value: ValueView,
}

impl View for Field {
    type V = FieldView;

    open spec fn view(&self) -> FieldView {
        FieldView { name: self.name@, value: self.value@ }
    }
}

impl Clone for Field {
    fn clone(&self) -> (copy: Self)
        ensures
            copy == *self,
    {
        Field { name: self.name.clone(), value: self.value.clone() }
    }
}

/// A structured value: fields in the order in which they were given.
#[derive(Debug, PartialEq, Eq)]
pub struct Record {
    pub fields: Vec<Field>,
}

/// A structured value as a plain value.
pub type RecordView = Seq<FieldView>;

impl View for Record {
    type V = RecordView;

    open spec fn view(&self) -> RecordView {
        self.fields@.map_values(|field: Field| field@)
    }
}

impl Clone for Record {
    fn clone(&self) -> (copy: Self)
        ensures
            copy.fields@ == self.fields@,
            copy@ == self@,
    {
        let mut fields: Vec<Field> = Vec::new();
        let mut at: usize = 0;
        while at < self.fields.len()
            invariant
                at <= self.fields.len(),
                fields@ == self.fields@.take(at as int),
            decreases self.fields.len() - at,
        {
            fields.push(self.fields[at].clone());
            assert(fields@ =~= self.fields@.take(at + 1));
            at = at + 1;
        }
        assert(fields@ =~= self.fields@);
        Record { fields }
    }
}

/// What a schema says of one field.
#[derive(Debug, PartialEq, Eq)]
pub struct Property {
    pub name: String,
    pub kind: Kind,
    pub required: bool,
}

/// A property as a plain value.
pub struct PropertyView {
    pub name: Seq<char>,
    pub kind: Kind,
    pub required: bool,
}

impl View for Property {
    type V = PropertyView;

    open spec fn view(&self) -> PropertyView {
        PropertyView { name: self.name@, kind: self.kind, required: self.required }
    }
}

impl Clone for Property {
    fn clone(&self) -> (copy: Self)
        ensures
            copy == *self,
    {
        Property { name: self.name.clone(), kind: self.kind, required: self.required }
    }
}

/// The descriptor of a structured value: the fields it may or must have, and
/// whether it may have others. Of two properties with one name the first
/// counts.
#[derive(Debug, PartialEq, Eq)]
pub struct Schema {
    pub properties: Vec<Property>,
    pub closed: bool,
}

/// A schema as a plain value.
pub struct SchemaView {
    pub properties: Seq<PropertyView>,
    pub closed: bool,
}

impl View for Schema {
    type V = SchemaView;

    open spec fn view(&self) -> SchemaView {
        SchemaView {
            properties: self.properties@.map_values(|property: Property| property@),
            closed: self.closed,
        }
    }
}

impl Clone for Schema {
    fn clone(&self) -> (copy: Self)
        ensures
            copy.properties@ == self.properties@,
            copy.closed == self.closed,
            copy@ == self@,
    {
        let mut properties: Vec<Property> = Vec::new();
        let mut at: usize = 0;
        while at < self.properties.len()
            invariant
                at <= self.properties.len(),
                properties@ == self.properties@.take(at as int),
            decreases self.properties.len() - at,
        {
            properties.push(self.properties[at].clone());
            assert(properties@ =~= self.properties@.take(at + 1));
            at = at + 1;
        }
        assert(properties@ =~= self.properties@);
        Schema { properties, closed: self.closed }
    }
}

} // verus!
