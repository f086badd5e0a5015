//! Points and their text encoding.

pub mod escape;
pub mod line;
pub mod point_values;

use crate::client::options::TimeUnitV2;
use crate::point::line::{default_texts, has_fields, line_text, ClockReading};
use crate::point::point_values::{
    with_fields, FieldContent, FieldError, PointContent, PointFieldType, PointFieldValue,
    PointValues,
};
use crate::string_map::{names_in_order, StringMap};
use crate::text::{is_float_text, text_of};
use vstd::prelude::*;

verus! {

/// One measurement event: a measurement, tags, typed fields and a timestamp.
pub struct Point {
    values: PointValues,
}

impl Clone for Point {
    /// A point that holds the same.
    fn clone(&self) -> (copy: Self)
        ensures
            copy@ == self@,
    {
        Point { values: self.values.clone() }
    }
}

impl View for Point {
    type V = PointContent;

    closed spec fn view(&self) -> PointContent {
        self.values@
    }
}

impl Point {
    /// A point has finitely many tags and finitely many fields.
    pub proof fn lemma_finite(self)
        ensures
            self@.tags.dom().finite(),
            self@.fields.dom().finite(),
    {
        self.values.lemma_finite();
    }

    /// A point of the given measurement, without timestamp, tags or fields.
    pub fn new(measurement: String) -> (point: Self)
        ensures
            point@ == (PointContent {
                measurement: Some(measurement@),
                timestamp: None,
                tags: Map::empty(),
                fields: Map::empty(),
            }),
    {
        Point { values: PointValues::from_measurement(measurement) }
    }

    /// A point of the given measurement, without timestamp, tags or fields.
    pub fn from_measurement(measurement: String) -> (point: Self)
        ensures
            point@ == (PointContent {
                measurement: Some(measurement@),
                timestamp: None,
                tags: Map::empty(),
                fields: Map::empty(),
            }),
    {
        Point { values: PointValues::from_measurement(measurement) }
    }

    /// The point that holds `values`.
    pub fn from_values(values: PointValues) -> (point: Self)
        ensures
            point@ == values@,
    {
        Point { values }
    }

    /// The measurement, if one is set.
    pub fn measurement(&self) -> (name: Option<String>)
        ensures
            match name {
                Some(text) => self@.measurement == Some(text@),
                None => self@.measurement is None,
            },
    {
        self.values.measurement()
    }

    /// Sets the measurement, unless `measurement` is empty: then the point stays as it is.
    pub fn set_measurement(&mut self, measurement: String)
        ensures
            final(self)@ == if measurement@.len() > 0 {
                PointContent { measurement: Some(measurement@), ..old(self)@ }
            } else {
                old(self)@
            },
    {
        if !measurement.as_str().is_empty() {
            self.values.set_measurement(measurement);
        }
    }

    /// The timestamp, if one is set.
    pub fn timestamp(&self) -> (time: Option<u32>)
        ensures
            time == self@.timestamp,
    {
        self.values.timestamp()
    }

    /// Sets the timestamp.
    pub fn set_timestamp(&mut self, timestamp: u32)
        ensures
            final(self)@ == (PointContent { timestamp: Some(timestamp), ..old(self)@ }),
    {
        self.values.set_timestamp(timestamp);
    }

    /// The value of the tag `tag_name`, if the point has that tag.
    pub fn get_tag(&self, tag_name: String) -> (value: Option<String>)
        ensures
            match value {
                Some(text) => self@.tags.contains_key(tag_name@) && self@.tags[tag_name@] == text@,
                None => !self@.tags.contains_key(tag_name@),
            },
    {
        self.values.get_tag(tag_name)
    }

    /// Sets the tag `name`, in place of the value it had, if any.
    pub fn set_tag(&mut self, name: String, value: String)
        ensures
            final(self)@ == (PointContent {
                tags: old(self)@.tags.insert(name@, value@),
                ..old(self)@
            }),
    {
        self.values.set_tag(name, value);
    }

    /// Removes the tag `name`, if the point has it.
    pub fn remove_tag(&mut self, name: String)
        ensures
            final(self)@ == (PointContent { tags: old(self)@.tags.remove(name@), ..old(self)@ }),
    {
        self.values.remove_tag(name);
    }

    /// The names of the tags, in ascending order.
    pub fn tag_names(&self) -> (names: Vec<String>)
        ensures
            names@.len() == names_in_order(self@.tags).len(),
            forall|i: int|
                0 <= i < names@.len() ==> (#[trigger] names@[i])@ == names_in_order(self@.tags)[i],
    {
        self.values.tag_names()
    }

    /// The decimal text of the floating-point field `name`, if the point
    /// has that field; an error if the field is of another type.
    pub fn get_float_field(&self, name: String) -> (field: Result<Option<String>, FieldError>)
        ensures
            match field {
                Ok(Some(text)) => self@.fields.contains_key(name@) && self@.fields[name@]
                    == FieldContent::Float(text@),
                Ok(None) => !self@.fields.contains_key(name@),
                Err(error) => {
                    &&& self@.fields.contains_key(name@)
                    &&& self@.fields[name@] !is Float
                    &&& error == (FieldError::TypeMismatch {
                        expected: PointFieldType::Float,
                        found: self@.fields[name@].field_type(),
                    })
                },
            },
    {
        self.values.get_float_field(name)
    }

    /// Sets the field `name` to the floating-point number whose decimal text is `value`.
    pub fn set_float_field(&mut self, name: String, value: String)
        requires
            is_float_text(value@),
        ensures
            final(self)@ == (PointContent {
                fields: old(self)@.fields.insert(name@, FieldContent::Float(value@)),
                ..old(self)@
            }),
    {
        self.values.set_float_field(name, value)
    }

    /// The integer field `name`, if the point has that field; an error if
    /// the field is of another type.
    pub fn get_int_field(&self, name: String) -> (field: Result<Option<i64>, FieldError>)
        ensures
            match field {
                Ok(Some(number)) => self@.fields.contains_key(name@) && self@.fields[name@]
                    == FieldContent::Integer(number),
                Ok(None) => !self@.fields.contains_key(name@),
                Err(error) => {
                    &&& self@.fields.contains_key(name@)
                    &&& self@.fields[name@] !is Integer
                    &&& error == (FieldError::TypeMismatch {
                        expected: PointFieldType::Integer,
                        found: self@.fields[name@].field_type(),
                    })
                },
            },
    {
        self.values.get_int_field(name)
    }

    /// Sets the field `name` to the integer `value`.
    pub fn set_int_field(&mut self, name: String, value: i64)
        ensures
            final(self)@ == (PointContent {
                fields: old(self)@.fields.insert(name@, FieldContent::Integer(value)),
                ..old(self)@
            }),
    {
        self.values.set_int_field(name, value)
    }

    /// The unsigned integer field `name`, if the point has that field; an
    /// error if the field is of another type.
    pub fn get_uinteger_field(&self, name: String) -> (field: Result<Option<u32>, FieldError>)
        ensures
            match field {
                Ok(Some(number)) => self@.fields.contains_key(name@) && self@.fields[name@]
                    == FieldContent::UInteger(number),
                Ok(None) => !self@.fields.contains_key(name@),
                Err(error) => {
                    &&& self@.fields.contains_key(name@)
                    &&& self@.fields[name@] !is UInteger
                    &&& error == (FieldError::TypeMismatch {
                        expected: PointFieldType::UInteger,
                        found: self@.fields[name@].field_type(),
                    })
                },
            },
    {
        self.values.get_uinteger_field(name)
    }

    /// Sets the field `name` to the unsigned integer `value`.
    pub fn set_uinteger_field(&mut self, name: String, value: u32)
        ensures
            final(self)@ == (PointContent {
                fields: old(self)@.fields.insert(name@, FieldContent::UInteger(value)),
                ..old(self)@
            }),
    {
        self.values.set_uinteger_field(name, value)
    }

    /// The string field `name`, if the point has that field; an error if
    /// the field is of another type.
    pub fn get_string_field(&self, name: String) -> (field: Result<Option<String>, FieldError>)
        ensures
            match field {
                Ok(Some(text)) => self@.fields.contains_key(name@) && self@.fields[name@]
                    == FieldContent::String(text@),
                Ok(None) => !self@.fields.contains_key(name@),
                Err(error) => {
                    &&& self@.fields.contains_key(name@)
                    &&& self@.fields[name@] !is String
                    &&& error == (FieldError::TypeMismatch {
                        expected: PointFieldType::String,
                        found: self@.fields[name@].field_type(),
                    })
                },
            },
    {
        self.values.get_string_field(name)
    }

    /// Sets the field `name` to the string `value`.
    pub fn set_string_field(&mut self, name: String, value: String)
        ensures
            final(self)@ == (PointContent {
                fields: old(self)@.fields.insert(name@, FieldContent::String(value@)),
                ..old(self)@
            }),
    {
        self.values.set_string_field(name, value)
    }

    /// The boolean field `name`, if the point has that field; an error if
    /// the field is of another type.
    pub fn get_boolean_field(&self, name: String) -> (field: Result<Option<bool>, FieldError>)
        ensures
            match field {
                Ok(Some(flag)) => self@.fields.contains_key(name@) && self@.fields[name@]
                    == FieldContent::Boolean(flag),
                Ok(None) => !self@.fields.contains_key(name@),
                Err(error) => {
                    &&& self@.fields.contains_key(name@)
                    &&& self@.fields[name@] !is Boolean
                    &&& error == (FieldError::TypeMismatch {
                        expected: PointFieldType::Boolean,
                        found: self@.fields[name@].field_type(),
                    })
                },
            },
    {
        self.values.get_boolean_field(name)
    }

    /// Sets the field `name` to the boolean `value`.
    pub fn set_boolean_field(&mut self, name: String, value: bool)
        ensures
            final(self)@ == (PointContent {
                fields: old(self)@.fields.insert(name@, FieldContent::Boolean(value)),
                ..old(self)@
            }),
    {
        self.values.set_boolean_field(name, value)
    }

    /// The type of the field `name`, if the point has it.
    pub fn get_field_type(&self, name: String) -> (field_type: Option<PointFieldType>)
        ensures
            field_type == if self@.fields.contains_key(name@) {
                Some(self@.fields[name@].field_type())
            } else {
                None
            },
    {
        self.values.get_field_type(name)
    }

    /// Sets each of the given fields, from the first to the last.
    pub fn set_fields(&mut self, values: Vec<(String, PointFieldValue)>) -> (outcome: Result<
        (),
        FieldError,
    >)
        requires
            forall|i: int| 0 <= i < values@.len() ==> (#[trigger] values@[i]).1@.is_well_formed(),
        ensures
            outcome is Ok,
            final(self)@ == (PointContent {
                fields: with_fields(old(self)@.fields, values@),
                ..old(self)@
            }),
    {
        self.values.set_fields(values)
    }

    /// Removes the field `name`; an error if the point has no such field.
    pub fn remove_field(&mut self, name: String) -> (outcome: Result<(), FieldError>)
        ensures
            match outcome {
                Ok(()) => {
                    &&& old(self)@.fields.contains_key(name@)
                    &&& final(self)@ == (PointContent {
                        fields: old(self)@.fields.remove(name@),
                        ..old(self)@
                    })
                },
                Err(error) => {
                    &&& !old(self)@.fields.contains_key(name@)
                    &&& error == FieldError::NotFound
                    &&& final(self)@ == old(self)@
                },
            },
    {
        self.values.remove_field(name)
    }

    /// The names of the fields, in ascending order.
    pub fn get_field_names(&self) -> (names: Vec<String>)
        ensures
            names@.len() == names_in_order(self@.fields).len(),
            forall|i: int|
                0 <= i < names@.len() ==> (#[trigger] names@[i])@ == names_in_order(
                    self@.fields,
                )[i],
    {
        self.values.get_field_names()
    }

    /// Whether the point has a field.
    pub fn has_fields(&self) -> (r: bool)
        ensures
            r == has_fields(self@),
    {
        self.values.has_fields()
    }

    /// The line of the point, with `now` for the time where the point has
    /// no timestamp; `None` where it has no measurement or no field.
    pub fn to_line_protocol_at(
        &self,
        now: ClockReading,
        time_precision: Option<TimeUnitV2>,
        default_tags: Option<StringMap<String>>,
    ) -> (line: Option<String>)
        ensures
            text_of(line) == line_text(self@, now, time_precision, default_texts(default_tags)),
            line is Some <==> self@.measurement is Some && has_fields(self@),
    {
        self.values.to_line_protocol_at(now, time_precision, default_tags)
    }

    /// The line of the point, with the time of the system clock where the
    /// point has no timestamp; `None` where it has no measurement or no field.
    pub fn to_line_protocol(
        &self,
        time_precision: Option<TimeUnitV2>,
        default_tags: Option<StringMap<String>>,
    ) -> (line: Option<String>)
        ensures
            line is Some <==> self@.measurement is Some && has_fields(self@),
            exists|now: ClockReading|
                now.nanoseconds < 1_000_000_000 && text_of(line) == #[trigger] line_text(
                    self@,
                    now,
                    time_precision,
                    default_texts(default_tags),
                ),
    {
        let now = ClockReading::now();
        self.values.to_line_protocol_at(now, time_precision, default_tags)
    }

    /// The line of the point in nanoseconds and without default tags, or
    /// the empty string where the point has no line.
    pub fn to_string(&self) -> (text: String)
        ensures
            exists|now: ClockReading|
                now.nanoseconds < 1_000_000_000 && text@ == match #[trigger] line_text(
                    self@,
                    now,
                    None,
                    None,
                ) {
                    Some(line) => line,
                    None => Seq::empty(),
                },
    {
        let now = ClockReading::now();
        let line = self.values.to_line_protocol_at(now, None, None);
        assert(text_of(line) == line_text(self@, now, None, None));
        match line {
            Some(line) => line,
            None => String::new(),
        }
    }
}

} // verus!
