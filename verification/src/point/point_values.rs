//! What a point holds: a measurement, a timestamp, tags and typed fields.

use crate::string_map::StringMap;
use crate::text::{is_float, is_float_text};
use vstd::prelude::*;

verus! {

/// The type of a field.
#[derive(Debug, Clone, Copy, PartialEq, Eq, Structural)]
pub enum PointFieldType {
    Float,
    Integer,
    UInteger,
    String,
    Boolean,
}

/// The value of a field.
///
/// A floating-point number is held as its decimal text, which is what the
/// line says of it.
#[derive(Debug)]
pub enum PointFieldValue {
    Float(String),
    Integer(i64),
    UInteger(u32),
    String(String),
    Boolean(bool),
}

/// What a field value holds.
pub enum FieldContent {
    Float(Seq<char>),
    Integer(i64),
    UInteger(u32),
    String(Seq<char>),
    Boolean(bool),
}

impl FieldContent {
    /// Whether the content is one that a field can hold: a floating-point
    /// number is held as the text of a floating-point number.
    pub open spec fn is_well_formed(self) -> bool {
        self matches FieldContent::Float(text) ==> is_float_text(text)
    }

    /// The type of a field with this content.
    pub open spec fn field_type(self) -> PointFieldType {
        match self {
            FieldContent::Float(_) => PointFieldType::Float,
            FieldContent::Integer(_) => PointFieldType::Integer,
            FieldContent::UInteger(_) => PointFieldType::UInteger,
            FieldContent::String(_) => PointFieldType::String,
            FieldContent::Boolean(_) => PointFieldType::Boolean,
        }
    }
}

impl View for PointFieldValue {
    type V = FieldContent;

    open spec fn view(&self) -> FieldContent {
        match self {
            PointFieldValue::Float(text) => FieldContent::Float(text@),
            PointFieldValue::Integer(number) => FieldContent::Integer(*number),
            PointFieldValue::UInteger(number) => FieldContent::UInteger(*number),
            PointFieldValue::String(text) => FieldContent::String(text@),
            PointFieldValue::Boolean(flag) => FieldContent::Boolean(*flag),
        }
    }
}

impl Clone for PointFieldValue {
    /// A value that holds the same.
    fn clone(&self) -> (copy: Self)
        ensures
            copy@ == self@,
    {
        match self {
            PointFieldValue::Float(text) => PointFieldValue::Float(text.clone()),
            PointFieldValue::Integer(number) => PointFieldValue::Integer(*number),
            PointFieldValue::UInteger(number) => PointFieldValue::UInteger(*number),
            PointFieldValue::String(text) => PointFieldValue::String(text.clone()),
            PointFieldValue::Boolean(flag) => PointFieldValue::Boolean(*flag),
        }
    }
}

impl PointFieldValue {
    /// Whether the value is one that a field can hold: a floating-point
    /// number is held as the text of a floating-point number.
    pub fn is_well_formed(&self) -> (r: bool)
        ensures
            r == self@.is_well_formed(),
    {
        match self {
            PointFieldValue::Float(text) => is_float(text.as_str()),
            _ => true,
        }
    }

    /// The type of this value.
    pub fn field_type(&self) -> (field_type: PointFieldType)
        ensures
            field_type == self@.field_type(),
    {
        match self {
            PointFieldValue::Float(_) => PointFieldType::Float,
            PointFieldValue::Integer(_) => PointFieldType::Integer,
            PointFieldValue::UInteger(_) => PointFieldType::UInteger,
            PointFieldValue::String(_) => PointFieldType::String,
            PointFieldValue::Boolean(_) => PointFieldType::Boolean,
        }
    }
}

/// Why a field could not be read, written or removed.
#[derive(Debug, Clone, Copy, PartialEq, Eq, Structural)]
pub enum FieldError {
    /// The field, or the value given for it, is of type `found`, and `expected` was asked for.
    TypeMismatch { expected: PointFieldType, found: PointFieldType },
    /// The point has no field of that name.
    NotFound,
}

/// The tags that a map of strings stands for.
pub open spec fn tag_texts(tags: Map<Seq<char>, String>) -> Map<Seq<char>, Seq<char>> {
    Map::new(|name: Seq<char>| tags.contains_key(name), |name: Seq<char>| tags[name]@)
}

/// The fields that a map of field values stands for.
pub open spec fn field_contents(fields: Map<Seq<char>, PointFieldValue>) -> Map<
    Seq<char>,
    FieldContent,
> {
    Map::new(|name: Seq<char>| fields.contains_key(name), |name: Seq<char>| fields[name]@)
}

/// The fields after each entry of `entries` has been set, from the first to the last.
pub open spec fn with_fields(
    fields: Map<Seq<char>, FieldContent>,
    entries: Seq<(String, PointFieldValue)>,
) -> Map<Seq<char>, FieldContent>
    decreases entries.len(),
{
    if entries.len() == 0 {
        fields
    } else {
        with_fields(fields, entries.drop_last()).insert(entries.last().0@, entries.last().1@)
    }
}

/// What a point holds.
pub struct PointContent {
    pub measurement: Option<Seq<char>>,
    pub timestamp: Option<u32>,
    pub tags: Map<Seq<char>, Seq<char>>,
    pub fields: Map<Seq<char>, FieldContent>,
}

impl PointContent {
    /// Whether every field holds what a field can hold.
    pub open spec fn is_well_formed(self) -> bool {
        forall|name: Seq<char>|
            self.fields.contains_key(name) ==> (#[trigger] self.fields[name]).is_well_formed()
    }
}

/// A point whose fields hold what fields can hold stays such a point when
/// a field is set to what a field can hold.
pub proof fn lemma_setting_keeps_well_formed(
    point: PointContent,
    name: Seq<char>,
    content: FieldContent,
)
    requires
        point.is_well_formed(),
        content.is_well_formed(),
    ensures
        (PointContent { fields: point.fields.insert(name, content), ..point }).is_well_formed(),
{
    let after = PointContent { fields: point.fields.insert(name, content), ..point };
    assert forall|other: Seq<char>| after.fields.contains_key(other) implies (
    #[trigger] after.fields[other]).is_well_formed() by {
        if other != name {
            assert(point.fields.contains_key(other));
            assert(after.fields[other] == point.fields[other]);
        }
    }
}

/// The values of a point.
pub struct PointValues {
    pub(crate) name: Option<String>,
    time: Option<u32>,
    tags: StringMap<String>,
    fields: StringMap<PointFieldValue>,
}

impl View for PointValues {
    type V = PointContent;

    closed spec fn view(&self) -> PointContent {
        PointContent {
            measurement: match self.name {
                Some(name) => Some(name@),
                None => None,
            },
            timestamp: self.time,
            tags: tag_texts(self.tags@),
            fields: field_contents(self.fields@),
        }
    }
}

impl Clone for PointValues {
    /// Values that hold the same.
    fn clone(&self) -> (copy: Self)
        ensures
            copy@ == self@,
    {
        let name = match &self.name {
            Some(name) => Some(name.clone()),
            None => None,
        };
        let tags = self.tags.clone();
        let fields = self.fields.clone();
        proof {
            use_type_invariant(&self.tags);
            use_type_invariant(&self.fields);
            assert(tags.values() =~= self.tags.values());
            assert(tags@ == self.tags@);
            self.fields.lemma_in_order();
            fields.lemma_in_order();
            assert(field_contents(fields@) =~= field_contents(self.fields@)) by {
                assert forall|name: Seq<char>| fields@.contains_key(name) implies fields@[name]@
                    == self.fields@[name]@ by {
                    let at = fields.names().index_of(name);
                    assert(0 <= at < fields.names().len() && fields.names()[at] == name);
                    assert(cloned(self.fields.values()[at], fields.values()[at]));
                }
            }
        }
        PointValues { name, time: self.time, tags, fields }
    }
}

impl Default for PointValues {
    /// Values without a measurement, a timestamp, a tag or a field.
    fn default() -> (values: Self)
        ensures
            values@ == (PointContent {
                measurement: None,
                timestamp: None,
                tags: Map::empty(),
                fields: Map::empty(),
            }),
    {
        let values = PointValues {
            name: None,
            time: None,
            tags: StringMap::new(),
            fields: StringMap::new(),
        };
        assert(values@.tags =~= Map::empty());
        assert(values@.fields =~= Map::empty());
        values
    }
}

impl PointValues {
    /// A point has finitely many tags and finitely many fields.
    pub proof fn lemma_finite(self)
        ensures
            self@.tags.dom().finite(),
            self@.fields.dom().finite(),
    {
        self.tags.lemma_finite();
        self.fields.lemma_finite();
        assert(self@.tags.dom() =~= self.tags@.dom());
        assert(self@.fields.dom() =~= self.fields@.dom());
    }

    /// The measurement, if one is set.
    pub fn measurement(&self) -> (name: Option<String>)
        ensures
            match name {
                Some(text) => self@.measurement == Some(text@),
                None => self@.measurement is None,
            },
    {
        match &self.name {
            Some(name) => Some(name.clone()),
            None => None,
        }
    }

    /// Sets the measurement.
    pub fn set_measurement(&mut self, measurement: String)
        ensures
            final(self)@ == (PointContent { measurement: Some(measurement@), ..old(self)@ }),
    {
        self.name = Some(measurement);
    }

    /// The timestamp, if one is set.
    pub fn timestamp(&self) -> (time: Option<u32>)
        ensures
            time == self@.timestamp,
    {
        self.time
    }

    /// Sets the timestamp.
    pub fn set_timestamp(&mut self, time: u32)
        ensures
            final(self)@ == (PointContent { timestamp: Some(time), ..old(self)@ }),
    {
        self.time = Some(time);
    }

    /// The fields, in ascending order of their names.
    pub fn get_fields(&self) -> (fields: &StringMap<PointFieldValue>)
        ensures
            fields.wf(),
            field_contents(fields@) == self@.fields,
    {
        proof {
            use_type_invariant(&self.fields);
        }
        &self.fields
    }

    /// The tags, in ascending order of their names.
    pub fn get_tags(&self) -> (tags: &StringMap<String>)
        ensures
            tags.wf(),
            tag_texts(tags@) == self@.tags,
    {
        proof {
            use_type_invariant(&self.tags);
        }
        &self.tags
    }

    /// Values of the given measurement, without timestamp, tags or fields.
    pub fn new(measurement: String) -> (values: Self)
        ensures
            values@ == (PointContent {
                measurement: Some(measurement@),
                timestamp: None,
                tags: Map::empty(),
                fields: Map::empty(),
            }),
    {
        let values = PointValues {
            name: Some(measurement),
            time: None,
            tags: StringMap::new(),
            fields: StringMap::new(),
        };
        assert(values@.tags =~= Map::empty());
        assert(values@.fields =~= Map::empty());
        values
    }

    /// Values of the given measurement, without timestamp, tags or fields.
    pub fn from_measurement(measurement: String) -> (values: Self)
        ensures
            values@ == (PointContent {
                measurement: Some(measurement@),
                timestamp: None,
                tags: Map::empty(),
                fields: Map::empty(),
            }),
    {
        PointValues::new(measurement)
    }

    /// The timestamp, if one is set.
    pub fn get_timestamp(&self) -> (time: Option<u32>)
        ensures
            time == self@.timestamp,
    {
        self.time
    }

    /// The value of the tag `tag_name`, if the point has that tag.
    pub fn get_tag(&self, tag_name: String) -> (value: Option<String>)
        ensures
            match value {
                Some(text) => self@.tags.contains_key(tag_name@) && self@.tags[tag_name@] == text@,
                None => !self@.tags.contains_key(tag_name@),
            },
    {
        match self.tags.get(tag_name.as_str()) {
            Some(value) => Some(value.clone()),
            None => None,
        }
    }

    /// Sets the tag `tag_name`, in place of the value it had, if any.
    pub fn set_tag(&mut self, tag_name: String, tag_value: String)
        ensures
            final(self)@ == (PointContent {
                tags: old(self)@.tags.insert(tag_name@, tag_value@),
                ..old(self)@
            }),
    {
        self.tags.insert(tag_name, tag_value);
        assert(final(self)@.tags =~= old(self)@.tags.insert(tag_name@, tag_value@));
    }

    /// Removes the tag `tag_name`, if the point has it.
    pub fn remove_tag(&mut self, tag_name: String)
        ensures
            final(self)@ == (PointContent {
                tags: old(self)@.tags.remove(tag_name@),
                ..old(self)@
            }),
    {
        let _ = self.tags.remove(tag_name.as_str());
        assert(final(self)@.tags =~= old(self)@.tags.remove(tag_name@));
    }

    /// The names of the tags, in ascending order.
    pub fn tag_names(&self) -> (names: Vec<String>)
        ensures
            names@.len() == crate::string_map::names_in_order(self@.tags).len(),
            forall|i: int|
                0 <= i < names@.len() ==> (#[trigger] names@[i])@
                    == crate::string_map::names_in_order(self@.tags)[i],
    {
        proof {
            use_type_invariant(&self.tags);
            self.tags.lemma_names_of(self@.tags);
        }
        self.tags.names_in_order()
    }

    /// The field `name`, if the point has it. Where `expected_type` is
    /// given and the field is of another type, that is an error.
    pub fn get_field(&self, name: String, expected_type: Option<PointFieldType>) -> (field: Result<
        Option<&PointFieldValue>,
        FieldError,
    >)
        ensures
            match field {
                Ok(Some(value)) => {
                    &&& self@.fields.contains_key(name@)
                    &&& self@.fields[name@] == value@
                    &&& expected_type is Some ==> expected_type->0 == value@.field_type()
                },
                Ok(None) => !self@.fields.contains_key(name@),
                Err(error) => {
                    &&& self@.fields.contains_key(name@)
                    &&& expected_type is Some
                    &&& expected_type->0 != self@.fields[name@].field_type()
                    &&& error == (FieldError::TypeMismatch {
                        expected: expected_type->0,
                        found: self@.fields[name@].field_type(),
                    })
                },
            },
    {
        match self.fields.get(name.as_str()) {
            Some(value) => {
                let found = value.field_type();
                match expected_type {
                    Some(expected) => {
                        if expected != found {
                            return Err(FieldError::TypeMismatch { expected, found });
                        }
                    },
                    None => {},
                }
                Ok(Some(value))
            },
            None => Ok(None),
        }
    }

    /// The type of the field `name`, if the point has it.
    pub fn get_field_type(&self, name: String) -> (field_type: Option<PointFieldType>)
        ensures
            field_type == if self@.fields.contains_key(name@) {
                Some(self@.fields[name@].field_type())
            } else {
                None
            },
    {
        match self.fields.get(name.as_str()) {
            Some(value) => Some(value.field_type()),
            None => None,
        }
    }

    /// The decimal text of the floating-point field `name`, if the point
    /// has that field; an error if the field is of another type.
    pub fn get_float_field(&self, name: String) -> (field: Result<Option<String>, FieldError>)
        ensures
            match field {
                Ok(Some(text)) => self@.fields.contains_key(name@) && self@.fields[name@]
                    == FieldContent::Float(text@),
                Ok(None) => !self@.fields.contains_key(name@),
                Err(error) => {
                    &&& self@.fields.contains_key(name@)
                    &&& self@.fields[name@] !is Float
                    &&& error == (FieldError::TypeMismatch {
                        expected: PointFieldType::Float,
                        found: self@.fields[name@].field_type(),
                    })
                },
            },
    {
        match self.get_field(name, Some(PointFieldType::Float)) {
            Ok(Some(PointFieldValue::Float(text))) => Ok(Some(text.clone())),
            Ok(Some(other)) => Err(
                FieldError::TypeMismatch {
                    expected: PointFieldType::Float,
                    found: other.field_type(),
                },
            ),
            Ok(None) => Ok(None),
            Err(error) => Err(error),
        }
    }

    /// Sets the field `name` to the floating-point number whose decimal text is `value`.
    pub fn set_float_field(&mut self, name: String, value: String)
        requires
            is_float_text(value@),
        ensures
            final(self)@ == (PointContent {
                fields: old(self)@.fields.insert(name@, FieldContent::Float(value@)),
                ..old(self)@
            }),
    {
        self.put_field(name, PointFieldValue::Float(value));
    }

    /// The integer field `name`, if the point has that field; an error if
    /// the field is of another type.
    pub fn get_int_field(&self, name: String) -> (field: Result<Option<i64>, FieldError>)
        ensures
            match field {
                Ok(Some(number)) => self@.fields.contains_key(name@) && self@.fields[name@]
                    == FieldContent::Integer(number),
                Ok(None) => !self@.fields.contains_key(name@),
                Err(error) => {
                    &&& self@.fields.contains_key(name@)
                    &&& self@.fields[name@] !is Integer
                    &&& error == (FieldError::TypeMismatch {
                        expected: PointFieldType::Integer,
                        found: self@.fields[name@].field_type(),
                    })
                },
            },
    {
        match self.get_field(name, Some(PointFieldType::Integer)) {
            Ok(Some(PointFieldValue::Integer(number))) => Ok(Some(*number)),
            Ok(Some(other)) => Err(
                FieldError::TypeMismatch {
                    expected: PointFieldType::Integer,
                    found: other.field_type(),
                },
            ),
            Ok(None) => Ok(None),
            Err(error) => Err(error),
        }
    }

    /// Sets the field `name` to the integer `value`.
    pub fn set_int_field(&mut self, name: String, value: i64)
        ensures
            final(self)@ == (PointContent {
                fields: old(self)@.fields.insert(name@, FieldContent::Integer(value)),
                ..old(self)@
            }),
    {
        self.put_field(name, PointFieldValue::Integer(value));
    }

    /// The unsigned integer field `name`, if the point has that field; an
    /// error if the field is of another type.
    pub fn get_uinteger_field(&self, name: String) -> (field: Result<Option<u32>, FieldError>)
        ensures
            match field {
                Ok(Some(number)) => self@.fields.contains_key(name@) && self@.fields[name@]
                    == FieldContent::UInteger(number),
                Ok(None) => !self@.fields.contains_key(name@),
                Err(error) => {
                    &&& self@.fields.contains_key(name@)
                    &&& self@.fields[name@] !is UInteger
                    &&& error == (FieldError::TypeMismatch {
                        expected: PointFieldType::UInteger,
                        found: self@.fields[name@].field_type(),
                    })
                },
            },
    {
        match self.get_field(name, Some(PointFieldType::UInteger)) {
            Ok(Some(PointFieldValue::UInteger(number))) => Ok(Some(*number)),
            Ok(Some(other)) => Err(
                FieldError::TypeMismatch {
                    expected: PointFieldType::UInteger,
                    found: other.field_type(),
                },
            ),
            Ok(None) => Ok(None),
            Err(error) => Err(error),
        }
    }

    /// Sets the field `name` to the unsigned integer `value`.
    pub fn set_uinteger_field(&mut self, name: String, value: u32)
        ensures
            final(self)@ == (PointContent {
                fields: old(self)@.fields.insert(name@, FieldContent::UInteger(value)),
                ..old(self)@
            }),
    {
        self.put_field(name, PointFieldValue::UInteger(value));
    }

    /// The string field `name`, if the point has that field; an error if
    /// the field is of another type.
    pub fn get_string_field(&self, name: String) -> (field: Result<Option<String>, FieldError>)
        ensures
            match field {
                Ok(Some(text)) => self@.fields.contains_key(name@) && self@.fields[name@]
                    == FieldContent::String(text@),
                Ok(None) => !self@.fields.contains_key(name@),
                Err(error) => {
                    &&& self@.fields.contains_key(name@)
                    &&& self@.fields[name@] !is String
                    &&& error == (FieldError::TypeMismatch {
                        expected: PointFieldType::String,
                        found: self@.fields[name@].field_type(),
                    })
                },
            },
    {
        match self.get_field(name, Some(PointFieldType::String)) {
            Ok(Some(PointFieldValue::String(text))) => Ok(Some(text.clone())),
            Ok(Some(other)) => Err(
                FieldError::TypeMismatch {
                    expected: PointFieldType::String,
                    found: other.field_type(),
                },
            ),
            Ok(None) => Ok(None),
            Err(error) => Err(error),
        }
    }

    /// Sets the field `name` to the string `value`.
    pub fn set_string_field(&mut self, name: String, value: String)
        ensures
            final(self)@ == (PointContent {
                fields: old(self)@.fields.insert(name@, FieldContent::String(value@)),
                ..old(self)@
            }),
    {
        self.put_field(name, PointFieldValue::String(value));
    }

    /// The boolean field `name`, if the point has that field; an error if
    /// the field is of another type.
    pub fn get_boolean_field(&self, name: String) -> (field: Result<Option<bool>, FieldError>)
        ensures
            match field {
                Ok(Some(flag)) => self@.fields.contains_key(name@) && self@.fields[name@]
                    == FieldContent::Boolean(flag),
                Ok(None) => !self@.fields.contains_key(name@),
                Err(error) => {
                    &&& self@.fields.contains_key(name@)
                    &&& self@.fields[name@] !is Boolean
                    &&& error == (FieldError::TypeMismatch {
                        expected: PointFieldType::Boolean,
                        found: self@.fields[name@].field_type(),
                    })
                },
            },
    {
        match self.get_field(name, Some(PointFieldType::Boolean)) {
            Ok(Some(PointFieldValue::Boolean(flag))) => Ok(Some(*flag)),
            Ok(Some(other)) => Err(
                FieldError::TypeMismatch {
                    expected: PointFieldType::Boolean,
                    found: other.field_type(),
                },
            ),
            Ok(None) => Ok(None),
            Err(error) => Err(error),
        }
    }

    /// Sets the field `name` to the boolean `value`.
    pub fn set_boolean_field(&mut self, name: String, value: bool)
        ensures
            final(self)@ == (PointContent {
                fields: old(self)@.fields.insert(name@, FieldContent::Boolean(value)),
                ..old(self)@
            }),
    {
        self.put_field(name, PointFieldValue::Boolean(value));
    }

    /// Sets the field `name`, whatever it held before.
    fn put_field(&mut self, name: String, value: PointFieldValue)
        ensures
            final(self)@ == (PointContent {
                fields: old(self)@.fields.insert(name@, value@),
                ..old(self)@
            }),
    {
        self.fields.insert(name, value);
        assert(final(self)@.fields =~= old(self)@.fields.insert(name@, value@));
    }

    /// Sets the field `name` to `value`, whatever type the field had
    /// before. Where `field_type` is given and `value` is of another type,
    /// that is an error and the point stays as it is.
    pub fn set_field(
        &mut self,
        name: String,
        value: PointFieldValue,
        field_type: Option<PointFieldType>,
    ) -> (outcome: Result<(), FieldError>)
        requires
            value@.is_well_formed(),
        ensures
            match outcome {
                Ok(()) => {
                    &&& field_type is Some ==> field_type->0 == value@.field_type()
                    &&& final(self)@ == (PointContent {
                        fields: old(self)@.fields.insert(name@, value@),
                        ..old(self)@
                    })
                },
                Err(error) => {
                    &&& field_type is Some
                    &&& field_type->0 != value@.field_type()
                    &&& error == (FieldError::TypeMismatch {
                        expected: field_type->0,
                        found: value@.field_type(),
                    })
                    &&& final(self)@ == old(self)@
                },
            },
    {
        let found = value.field_type();
        match field_type {
            Some(expected) => {
                if expected != found {
                    return Err(FieldError::TypeMismatch { expected, found });
                }
            },
            None => {},
        }
        self.put_field(name, value);
        Ok(())
    }

    /// Sets each of the given fields, from the first to the last.
    pub fn set_fields(&mut self, values: Vec<(String, PointFieldValue)>) -> (outcome: Result<
        (),
        FieldError,
    >)
        requires
            forall|i: int| 0 <= i < values@.len() ==> (#[trigger] values@[i]).1@.is_well_formed(),
        ensures
            outcome is Ok,
            final(self)@ == (PointContent {
                fields: with_fields(old(self)@.fields, values@),
                ..old(self)@
            }),
    {
        let mut values = values;
        let ghost all = values@;
        let mut later: Vec<(String, PointFieldValue)> = Vec::new();
        while values.len() > 0
            invariant
                all == values@ + later@.reverse(),
            decreases values.len(),
        {
            let ghost before = values@;
            let ghost stacked = later@;
            match values.pop() {
                Some(entry) => {
                    later.push(entry);
                    assert(before + stacked.reverse() =~= values@ + later@.reverse());
                },
                None => {},
            }
        }
        assert(all =~= later@.reverse());
        assert(all.take(0) =~= Seq::empty());
        while later.len() > 0
            invariant
                later@.len() <= all.len(),
                self@ == (PointContent {
                    fields: with_fields(
                        old(self)@.fields,
                        all.take(all.len() - later@.len()),
                    ),
                    ..old(self)@
                }),
                forall|j: int|
                    0 <= j < later@.len() ==> #[trigger] later@[j] == all[all.len() - 1 - j],
            decreases later.len(),
        {
            let ghost done = all.len() - later@.len();
            match later.pop() {
                Some((name, value)) => {
                    assert(all.take(done + 1).drop_last() =~= all.take(done));
                    assert(all.take(done + 1).last() == (name, value));
                    self.put_field(name, value);
                },
                None => {},
            }
        }
        assert(all.take(all.len() as int) =~= all);
        Ok(())
    }

    /// Removes the field `name`; an error if the point has no such field.
    pub fn remove_field(&mut self, name: String) -> (outcome: Result<(), FieldError>)
        ensures
            match outcome {
                Ok(()) => {
                    &&& old(self)@.fields.contains_key(name@)
                    &&& final(self)@ == (PointContent {
                        fields: old(self)@.fields.remove(name@),
                        ..old(self)@
                    })
                },
                Err(error) => {
                    &&& !old(self)@.fields.contains_key(name@)
                    &&& error == FieldError::NotFound
                    &&& final(self)@ == old(self)@
                },
            },
    {
        match self.fields.remove(name.as_str()) {
            Some(_) => {
                assert(final(self)@.fields =~= old(self)@.fields.remove(name@));
                Ok(())
            },
            None => {
                assert(final(self)@.fields =~= old(self)@.fields);
                Err(FieldError::NotFound)
            },
        }
    }

    /// The names of the fields, in ascending order.
    pub fn get_field_names(&self) -> (names: Vec<String>)
        ensures
            names@.len() == crate::string_map::names_in_order(self@.fields).len(),
            forall|i: int|
                0 <= i < names@.len() ==> (#[trigger] names@[i])@
                    == crate::string_map::names_in_order(self@.fields)[i],
    {
        proof {
            use_type_invariant(&self.fields);
            self.fields.lemma_names_of(self@.fields);
        }
        self.fields.names_in_order()
    }

    /// Whether the point has a field.
    pub fn has_fields(&self) -> (r: bool)
        ensures
            r == (self@.fields.len() > 0),
            r == exists|name: Seq<char>| self@.fields.contains_key(name),
    {
        proof {
            use_type_invariant(&self.fields);
            self.fields.lemma_in_order();
            assert(self@.fields.dom() =~= self.fields@.dom());
            if self.fields.names().len() > 0 {
                assert(self@.fields.contains_key(self.fields.names()[0]));
                assert(self@.fields.dom().len() > 0) by {
                    if self@.fields.dom().len() == 0 {
                        self@.fields.dom().lemma_len0_is_empty();
                    }
                }
            } else {
                assert(self@.fields.dom() =~= Set::empty());
            }
        }
        !self.fields.is_empty()
    }
}

} // verus!
