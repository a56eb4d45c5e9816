//! Holding a structured value to a schema.

use crate::search::{lemma_next_index_of, next_index_of};
use crate::value::{
    kind_of, FieldView, Kind, PropertyView, Record, RecordView, Schema, SchemaView, Value,
};
use vstd::prelude::*;
use vstd::string::*;

verus! {

/// What is wrong with a structured value.
#[derive(Debug, PartialEq, Eq)]
pub enum Violation {
    /// A field is given twice.
    Repeated { field: String },
    /// A field is given that a closed schema does not declare.
    Undeclared { field: String },
    /// A field has another kind than the schema declares.
    Mismatch { field: String, expected: Kind, found: Kind },
    /// A required field is not given.
    Missing { field: String },
}

/// A violation as a plain value.
pub enum ViolationView {
    Repeated { field: Seq<char> },
    Undeclared { field: Seq<char> },
    Mismatch { field: Seq<char>, expected: Kind, found: Kind },
    Missing { field: Seq<char> },
}

impl View for Violation {
    type V = ViolationView;

    open spec fn view(&self) -> ViolationView {
        match self {
            Violation::Repeated { field } => ViolationView::Repeated { field: field@ },
            Violation::Undeclared { field } => ViolationView::Undeclared { field: field@ },
            Violation::Mismatch { field, expected, found } => ViolationView::Mismatch {
                field: field@,
                expected: *expected,
                found: *found,
            },
            Violation::Missing { field } => ViolationView::Missing { field: field@ },
        }
    }
}

impl Clone for Violation {
    fn clone(&self) -> (copy: Self)
        ensures
            copy == *self,
    {
        match self {
            Violation::Repeated { field } => Violation::Repeated { field: field.clone() },
            Violation::Undeclared { field } => Violation::Undeclared { field: field.clone() },
            Violation::Mismatch { field, expected, found } => Violation::Mismatch {
                field: field.clone(),
                expected: *expected,
                found: *found,
            },
            Violation::Missing { field } => Violation::Missing { field: field.clone() },
        }
    }
}

/// The names of the fields of a value, in their order.
pub open spec fn record_names(record: RecordView) -> Seq<Seq<char>> {
    record.map_values(|field: FieldView| field.name)
}

/// The names of the properties of a schema, in their order.
pub open spec fn property_names(schema: SchemaView) -> Seq<Seq<char>> {
    schema.properties.map_values(|property: PropertyView| property.name)
}

/// Whether a value has a field of this name.
pub open spec fn has_field(record: RecordView, name: Seq<char>) -> bool {
    next_index_of(record_names(record), 0, name) < record.len()
}

/// The kind that a schema declares for a name.
pub open spec fn declared_kind(schema: SchemaView, name: Seq<char>) -> Option<Kind> {
    let at = next_index_of(property_names(schema), 0, name);
    if at < schema.properties.len() {
        Some(schema.properties[at].kind)
    } else {
        None
    }
}

/// A value conforms to a schema when no field is given twice, each field has
/// the kind declared for it, or is not declared and the schema is open, and
/// every required field is given.
pub open spec fn conforms(schema: SchemaView, record: RecordView) -> bool {
    &&& forall|i: int, j: int|
        0 <= i < j < record.len() ==> (#[trigger] record[i]).name != (#[trigger] record[j]).name
    &&& forall|i: int|
        0 <= i < record.len() ==> match declared_kind(schema, (#[trigger] record[i]).name) {
            Some(kind) => kind_of(record[i].value) == kind,
            None => !schema.closed,
        }
    &&& forall|p: int|
        0 <= p < schema.properties.len() && (#[trigger] schema.properties[p]).required
            ==> has_field(record, schema.properties[p].name)
}

/// What is wrong with the field at `at`, if anything: that it was given
/// before, that it is not declared, or that it has the wrong kind.
pub open spec fn field_violation(schema: SchemaView, record: RecordView, at: int) -> Option<
    ViolationView,
> {
    let field = record[at];
    if next_index_of(record_names(record), 0, field.name) < at {
        Some(ViolationView::Repeated { field: field.name })
    } else {
        match declared_kind(schema, field.name) {
            None => if schema.closed {
                Some(ViolationView::Undeclared { field: field.name })
            } else {
                None
            },
            Some(kind) => if kind != kind_of(field.value) {
                Some(
                    ViolationView::Mismatch {
                        field: field.name,
                        expected: kind,
                        found: kind_of(field.value),
                    },
                )
            } else {
                None
            },
        }
    }
}

/// The first thing wrong with a field at or after `from`.
pub open spec fn first_field_violation(schema: SchemaView, record: RecordView, from: int) -> Option<
    ViolationView,
>
    decreases record.len() - from,
{
    if from < 0 || from >= record.len() {
        None
    } else {
        match field_violation(schema, record, from) {
            Some(violation) => Some(violation),
            None => first_field_violation(schema, record, from + 1),
        }
    }
}

/// The first required property at or after `from` that the value lacks.
pub open spec fn first_missing(schema: SchemaView, record: RecordView, from: int) -> Option<
    ViolationView,
>
    decreases schema.properties.len() - from,
{
    if from < 0 || from >= schema.properties.len() {
        None
    } else if schema.properties[from].required && !has_field(record, schema.properties[from].name) {
        Some(ViolationView::Missing { field: schema.properties[from].name })
    } else {
        first_missing(schema, record, from + 1)
    }
}

/// The violation that is reported: the fields are held to the schema in their
/// order, then the required properties in theirs.
pub open spec fn first_violation(schema: SchemaView, record: RecordView) -> Option<ViolationView> {
    match first_field_violation(schema, record, 0) {
        Some(violation) => Some(violation),
        None => first_missing(schema, record, 0),
    }
}

proof fn lemma_field_violations(schema: SchemaView, record: RecordView, from: int)
    requires
        0 <= from <= record.len(),
    ensures
        first_field_violation(schema, record, from) is None <==> forall|i: int|
            from <= i < record.len() ==> #[trigger] field_violation(schema, record, i) is None,
    decreases record.len() - from,
{
    if from < record.len() {
        lemma_field_violations(schema, record, from + 1);
        if first_field_violation(schema, record, from) is None {
            assert forall|i: int| from <= i < record.len() implies #[trigger] field_violation(
                schema,
                record,
                i,
            ) is None by {
                if i > from {
                    assert(from + 1 <= i);
                }
            }
        }
    }
}

proof fn lemma_missing(schema: SchemaView, record: RecordView, from: int)
    requires
        0 <= from <= schema.properties.len(),
    ensures
        first_missing(schema, record, from) is None <==> forall|p: int|
            from <= p < schema.properties.len() && (#[trigger] schema.properties[p]).required
                ==> has_field(record, schema.properties[p].name),
    decreases schema.properties.len() - from,
{
    if from < schema.properties.len() {
        lemma_missing(schema, record, from + 1);
        if first_missing(schema, record, from) is None {
            assert forall|p: int|
                from <= p < schema.properties.len() && (
                #[trigger] schema.properties[p]).required implies has_field(
                record,
                schema.properties[p].name,
            ) by {
                if p > from {
                    assert(from + 1 <= p);
                }
            }
        }
    }
}

/// Nothing is reported of a value exactly when it conforms.
pub proof fn lemma_first_violation(schema: SchemaView, record: RecordView)
    ensures
        first_violation(schema, record) is None <==> conforms(schema, record),
{
    lemma_field_violations(schema, record, 0);
    lemma_missing(schema, record, 0);
    let names = record_names(record);
    if conforms(schema, record) {
        assert forall|i: int| 0 <= i < record.len() implies #[trigger] field_violation(
            schema,
            record,
            i,
        ) is None by {
            lemma_next_index_of(names, 0, record[i].name);
            let first = next_index_of(names, 0, record[i].name);
            if first < i {
                assert(names[first] == record[first].name);
                assert(record[first].name != record[i].name);
            }
        }
    }
    if first_violation(schema, record) is None {
        assert forall|i: int, j: int| 0 <= i < j < record.len() implies (#[trigger] record[i]).name
            != (#[trigger] record[j]).name by {
            assert(field_violation(schema, record, j) is None);
            lemma_next_index_of(names, 0, record[j].name);
            if record[i].name == record[j].name {
                assert(names[i] == record[j].name);
            }
        }
        assert forall|i: int| 0 <= i < record.len() implies match declared_kind(
            schema,
            (#[trigger] record[i]).name,
        ) {
            Some(kind) => kind_of(record[i].value) == kind,
            None => !schema.closed,
        } by {
            assert(field_violation(schema, record, i) is None);
        }
    }
}

/// The name of a kind in messages.
pub open spec fn kind_text(kind: Kind) -> Seq<char> {
    match kind {
        Kind::Boolean => "boolean"@,
        Kind::Integer => "integer"@,
        Kind::Text => "text"@,
    }
}

/// The text of a violation.
pub open spec fn violation_text(violation: ViolationView) -> Seq<char> {
    match violation {
        ViolationView::Repeated { field } => "field "@ + field + " is given twice"@,
        ViolationView::Undeclared { field } => "field "@ + field + " is not declared"@,
        ViolationView::Mismatch { field, expected, found } => "field "@ + field + " must be "@
            + kind_text(expected) + ", not "@ + kind_text(found),
        ViolationView::Missing { field } => "required field "@ + field + " is missing"@,
    }
}

fn kind_name(kind: Kind) -> (name: &'static str)
    ensures
        name@ == kind_text(kind),
{
    match kind {
        Kind::Boolean => "boolean",
        Kind::Integer => "integer",
        Kind::Text => "text",
    }
}

impl Violation {
    /// The text of this violation.
    pub fn message(&self) -> (text: String)
        ensures
            text@ == violation_text(self@),
    {
        match self {
            Violation::Repeated { field } => {
                let mut text = String::from_str("field ");
                text.append(field.as_str());
                text.append(" is given twice");
                text
            },
            Violation::Undeclared { field } => {
                let mut text = String::from_str("field ");
                text.append(field.as_str());
                text.append(" is not declared");
                text
            },
            Violation::Mismatch { field, expected, found } => {
                let mut text = String::from_str("field ");
                text.append(field.as_str());
                text.append(" must be ");
                text.append(kind_name(*expected));
                text.append(", not ");
                text.append(kind_name(*found));
                text
            },
            Violation::Missing { field } => {
                let mut text = String::from_str("required field ");
                text.append(field.as_str());
                text.append(" is missing");
                text
            },
        }
    }
}

impl Record {
    /// The index of the first field of this name, or the number of fields
    /// when there is none.
    pub fn position(&self, name: &String) -> (at: usize)
        ensures
            at == next_index_of(record_names(self@), 0, name@),
            at <= self.fields@.len(),
    {
        let mut at: usize = 0;
        while at < self.fields.len() && self.fields[at].name != *name
            invariant
                at <= self.fields.len(),
                next_index_of(record_names(self@), at as int, name@) == next_index_of(
                    record_names(self@),
                    0,
                    name@,
                ),
            decreases self.fields.len() - at,
        {
            at = at + 1;
        }
        at
    }

    /// The value of the first field of this name.
    pub fn get(&self, name: &String) -> (value: Option<&Value>)
        ensures
            value is Some <==> has_field(self@, name@),
            value is Some ==> value->Some_0@ == self@[next_index_of(
                record_names(self@),
                0,
                name@,
            )].value,
    {
        let at = self.position(name);
        if at < self.fields.len() {
            Some(&self.fields[at].value)
        } else {
            None
        }
    }
}

impl Schema {
    /// The kind declared for a name.
    pub fn declared(&self, name: &String) -> (kind: Option<Kind>)
        ensures
            kind == declared_kind(self@, name@),
    {
        let mut at: usize = 0;
        while at < self.properties.len() && self.properties[at].name != *name
            invariant
                at <= self.properties.len(),
                next_index_of(property_names(self@), at as int, name@) == next_index_of(
                    property_names(self@),
                    0,
                    name@,
                ),
            decreases self.properties.len() - at,
        {
            at = at + 1;
        }
        if at < self.properties.len() {
            Some(self.properties[at].kind)
        } else {
            None
        }
    }

    /// Holds a value to this schema and reports the first violation.
    pub fn check(&self, record: &Record) -> (out: Result<(), Violation>)
        ensures
            out is Ok <==> conforms(self@, record@),
            match first_violation(self@, record@) {
                None => out is Ok,
                Some(violation) => out is Err && out->Err_0@ == violation,
            },
    {
        proof {
            lemma_first_violation(self@, record@);
        }
        let mut at: usize = 0;
        while at < record.fields.len()
            invariant
                at <= record.fields.len(),
                first_violation(self@, record@) is None <==> conforms(self@, record@),
                first_field_violation(self@, record@, at as int) == first_field_violation(
                    self@,
                    record@,
                    0,
                ),
            decreases record.fields.len() - at,
        {
            let field = &record.fields[at];
            assert(record@[at as int] == field@);
            if record.position(&field.name) < at {
                return Err(Violation::Repeated { field: field.name.clone() });
            }
            match self.declared(&field.name) {
                None => {
                    if self.closed {
                        return Err(Violation::Undeclared { field: field.name.clone() });
                    }
                },
                Some(kind) => {
                    let found = field.value.kind();
                    if kind != found {
                        return Err(
                            Violation::Mismatch { field: field.name.clone(), expected: kind, found },
                        );
                    }
                },
            }
            at = at + 1;
        }
        let mut at: usize = 0;
        while at < self.properties.len()
            invariant
                at <= self.properties.len(),
                first_violation(self@, record@) is None <==> conforms(self@, record@),
                first_field_violation(self@, record@, 0) is None,
                first_missing(self@, record@, at as int) == first_missing(self@, record@, 0),
            decreases self.properties.len() - at,
        {
            let property = &self.properties[at];
            assert(self@.properties[at as int] == property@);
            if property.required && record.position(&property.name) >= record.fields.len() {
                return Err(Violation::Missing { field: property.name.clone() });
            }
            at = at + 1;
        }
        Ok(())
    }
}

} // verus!
