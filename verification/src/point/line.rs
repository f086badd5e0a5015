//! The text of a point: `measurement[,tag=value...] field=value[,field=value...] time`.

use crate::client::options::TimeUnitV2;
use crate::point::escape::{escape, escaped_text, COMMA_EQ_SPACE, COMMA_SPACE, DOUBLE_QUOTE};
use crate::point::point_values::{
    field_contents, tag_texts, FieldContent, PointContent, PointFieldValue, PointValues,
};
use crate::string_map::{
    ascending, lemma_ascending_index, lemma_names_exist, names_in_order, StringMap,
};
use crate::text::{
    decimal_text, lex_less, push_decimal, push_signed_decimal, signed_decimal_text, text_of,
};
use std::time::{SystemTime, SystemTimeError, UNIX_EPOCH};
use vstd::prelude::*;
use vstd::string::StringExecFns;

verus! {

/// A reading of the clock: the time that has passed since the Unix epoch.
#[derive(Debug, Clone, Copy, PartialEq, Eq, Structural)]
pub struct ClockReading {
    /// Whole seconds.
    pub seconds: u64,
    /// The rest, in nanoseconds.
    pub nanoseconds: u32,
}

impl ClockReading {
    /// The reading in whole units of `unit`.
    pub open spec fn in_unit(self, unit: TimeUnitV2) -> nat {
        match unit {
            TimeUnitV2::Second => self.seconds as nat,
            TimeUnitV2::Millisecond => (self.seconds * 1_000 + self.nanoseconds / 1_000_000) as nat,
            TimeUnitV2::Microsecond => (self.seconds * 1_000_000 + self.nanoseconds / 1_000) as nat,
            TimeUnitV2::Nanosecond => (self.seconds * 1_000_000_000 + self.nanoseconds) as nat,
        }
    }

    /// The reading in whole units of `unit`.
    pub fn to_unit(&self, unit: TimeUnitV2) -> (count: u128)
        ensures
            count == self.in_unit(unit),
    {
        let seconds: u128 = self.seconds as u128;
        let rest: u128 = self.nanoseconds as u128;
        match unit {
            TimeUnitV2::Second => seconds,
            TimeUnitV2::Millisecond => seconds * 1_000 + rest / 1_000_000,
            TimeUnitV2::Microsecond => seconds * 1_000_000 + rest / 1_000,
            TimeUnitV2::Nanosecond => seconds * 1_000_000_000 + rest,
        }
    }

    /// The time that has passed since the Unix epoch, or the epoch itself
    /// where the clock stands before it.
    pub fn now() -> (reading: ClockReading)
        ensures
            reading.nanoseconds < 1_000_000_000,
    {
        let elapsed = match SystemTime::now().duration_since(unix_epoch()) {
            Ok(elapsed) => Some((elapsed.as_secs(), elapsed.subsec_nanos())),
            Err(_) => None,
        };
        ClockReading::since_epoch(elapsed)
    }

    /// The reading of a clock that stands `elapsed` after the Unix epoch,
    /// given as whole seconds and the nanoseconds beyond them, or the epoch
    /// itself where the clock stands before it and nothing has elapsed.
    pub fn since_epoch(elapsed: Option<(u64, u32)>) -> (reading: ClockReading)
        ensures
            reading == match elapsed {
                Some((seconds, nanoseconds)) => (ClockReading { seconds, nanoseconds }),
                None => (ClockReading { seconds: 0, nanoseconds: 0 }),
            },
    {
        match elapsed {
            Some((seconds, nanoseconds)) => ClockReading { seconds, nanoseconds },
            None => ClockReading { seconds: 0, nanoseconds: 0 },
        }
    }
}

/// A point in time as the system clock tells it: `std::time::SystemTime`.
#[verifier::external_type_specification]
#[verifier::external_body]
pub struct ExSystemTime(SystemTime);

/// What `SystemTime::duration_since` reports where the second point in
/// time is the later one: `std::time::SystemTimeError`.
#[verifier::external_type_specification]
#[verifier::external_body]
pub struct ExSystemTimeError(SystemTimeError);

/// `SystemTime::now` reads the system clock: nothing is known of the result.
pub assume_specification[ SystemTime::now ]() -> (now: SystemTime)
;

/// `SystemTime::duration_since` is the time from `earlier` to `later`, or
/// an error where `earlier` is the later one: nothing is known of the result.
pub assume_specification[ SystemTime::duration_since ](
    later: &SystemTime,
    earlier: SystemTime,
) -> (elapsed: Result<std::time::Duration, SystemTimeError>)
;

/// `Duration::as_secs` is the number of whole seconds of the span.
pub assume_specification[ std::time::Duration::as_secs ](span: &std::time::Duration) -> (seconds: u64)
;

/// `Duration::subsec_nanos` is the part of the span beyond its whole
/// seconds, in nanoseconds: less than a second.
pub assume_specification[ std::time::Duration::subsec_nanos ](span: &std::time::Duration) -> (nanoseconds: u32)
    ensures
        nanoseconds < 1_000_000_000,
;

/// `UNIX_EPOCH`: the first of January 1970, at midnight, in universal time.
#[verifier::external_body]
fn unix_epoch() -> (epoch: SystemTime) {
    UNIX_EPOCH
}

/// What the line says for the value of a field: an integer with `i`
/// behind it, an unsigned integer with `u`, a boolean as `T` or `F`, a
/// floating-point number as its decimal text, a string between double
/// quotes with its double quotes and backslashes escaped.
pub open spec fn field_value_text(content: FieldContent) -> Seq<char> {
    match content {
        FieldContent::Float(text) => text,
        FieldContent::Integer(number) => signed_decimal_text(number as int).push('i'),
        FieldContent::UInteger(number) => decimal_text(number as nat).push('u'),
        FieldContent::String(text) => seq!['"'] + escaped_text(text, DOUBLE_QUOTE@) + seq!['"'],
        FieldContent::Boolean(flag) => if flag {
            seq!['T']
        } else {
            seq!['F']
        },
    }
}

/// One field: `name=value`.
pub open spec fn field_pair_text(name: Seq<char>, content: FieldContent) -> Seq<char> {
    escaped_text(name, COMMA_EQ_SPACE@) + seq!['='] + field_value_text(content)
}

/// The fields of the given names, in that order, with commas between them.
pub open spec fn fields_text(names: Seq<Seq<char>>, fields: Map<Seq<char>, FieldContent>) -> Seq<
    char,
>
    decreases names.len(),
{
    if names.len() == 0 {
        Seq::empty()
    } else if names.len() == 1 {
        field_pair_text(names[0], fields[names[0]])
    } else {
        fields_text(names.drop_last(), fields) + seq![','] + field_pair_text(
            names.last(),
            fields[names.last()],
        )
    }
}

/// One tag: `,name=value`.
pub open spec fn tag_pair_text(name: Seq<char>, value: Seq<char>) -> Seq<char> {
    seq![','] + escaped_text(name, COMMA_EQ_SPACE@) + seq!['='] + escaped_text(
        value,
        COMMA_EQ_SPACE@,
    )
}

/// Whether a tag of this name is written: its name is not empty, and no
/// tag that takes precedence has the same name.
pub open spec fn is_written(name: Seq<char>, hidden: Set<Seq<char>>) -> bool {
    name.len() > 0 && !hidden.contains(name)
}

/// The tags of the given names, in that order, but for those that are not written.
pub open spec fn tags_text(
    names: Seq<Seq<char>>,
    tags: Map<Seq<char>, Seq<char>>,
    hidden: Set<Seq<char>>,
) -> Seq<char>
    decreases names.len(),
{
    if names.len() == 0 {
        Seq::empty()
    } else if is_written(names.last(), hidden) {
        tags_text(names.drop_last(), tags, hidden) + tag_pair_text(names.last(), tags[names.last()])
    } else {
        tags_text(names.drop_last(), tags, hidden)
    }
}

/// The default tags of a line: those whose name no tag of the point has, in
/// ascending order of their names.
pub open spec fn default_tags_text(
    defaults: Option<Map<Seq<char>, Seq<char>>>,
    tags: Map<Seq<char>, Seq<char>>,
) -> Seq<char> {
    match defaults {
        Some(defaults) => tags_text(names_in_order(defaults), defaults, tags.dom()),
        None => Seq::empty(),
    }
}

/// The time of a line: the timestamp of the point where it has one, else
/// the clock reading in the unit asked for, in nanoseconds where none is.
pub open spec fn time_text(
    timestamp: Option<u32>,
    now: ClockReading,
    precision: Option<TimeUnitV2>,
) -> Seq<char> {
    match timestamp {
        Some(time) => decimal_text(time as nat),
        None => decimal_text(
            now.in_unit(
                match precision {
                    Some(unit) => unit,
                    None => TimeUnitV2::Nanosecond,
                },
            ),
        ),
    }
}

/// Whether the point has a field.
pub open spec fn has_fields(point: PointContent) -> bool {
    exists|name: Seq<char>| point.fields.contains_key(name)
}

/// The line of a point, if it has one: a point without a measurement or
/// without a field has none.
///
/// The measurement comes first, its commas and spaces escaped. Then the
/// default tags that the point does not set itself and the tags of the
/// point, each group in ascending order of the names, each tag with a comma
/// in front. Then a space, the fields in ascending order of their names
/// with commas between them, a space, and the time.
pub open spec fn line_text(
    point: PointContent,
    now: ClockReading,
    precision: Option<TimeUnitV2>,
    defaults: Option<Map<Seq<char>, Seq<char>>>,
) -> Option<Seq<char>> {
    if point.measurement is Some && has_fields(point) {
        Some(
            escaped_text(point.measurement->0, COMMA_SPACE@) + default_tags_text(
                defaults,
                point.tags,
            ) + tags_text(names_in_order(point.tags), point.tags, Set::empty()) + seq![' ']
                + fields_text(names_in_order(point.fields), point.fields) + seq![' '] + time_text(
                point.timestamp,
                now,
                precision,
            ),
        )
    } else {
        None
    }
}

/// The tags that a map of default tags stands for.
pub open spec fn default_texts(defaults: Option<StringMap<String>>) -> Option<
    Map<Seq<char>, Seq<char>>,
> {
    match defaults {
        Some(map) => Some(tag_texts(map@)),
        None => None,
    }
}

/// Tags are written in ascending order of their names, whatever the order
/// in which they were set: the names that a line goes through are those of
/// the tags, each once, and the one that comes first in the line comes
/// first in the order of strings.
pub proof fn lemma_tags_ascending(tags: Map<Seq<char>, Seq<char>>, i: int, j: int)
    requires
        tags.dom().finite(),
        0 <= i < j < names_in_order(tags).len(),
    ensures
        lex_less(names_in_order(tags)[i], names_in_order(tags)[j]),
        forall|name: Seq<char>| names_in_order(tags).contains(name) <==> tags.contains_key(name),
{
    lemma_names_exist(tags);
}

/// The order in which tags are set leaves no trace: a point holds the
/// same, and so has the same line, whichever of two tags was set first.
pub proof fn lemma_order_of_setting_is_immaterial(
    point: PointContent,
    first: (Seq<char>, Seq<char>),
    second: (Seq<char>, Seq<char>),
)
    requires
        first.0 != second.0,
    ensures
        (PointContent { tags: point.tags.insert(first.0, first.1).insert(second.0, second.1), ..point })
            == (PointContent {
            tags: point.tags.insert(second.0, second.1).insert(first.0, first.1),
            ..point
        }),
{
    assert(point.tags.insert(first.0, first.1).insert(second.0, second.1) =~= point.tags.insert(
        second.0,
        second.1,
    ).insert(first.0, first.1));
}

/// A tag that is not written leaves no trace: the text is that of the
/// names without it.
proof fn lemma_unwritten_tag(
    names: Seq<Seq<char>>,
    tags: Map<Seq<char>, Seq<char>>,
    hidden: Set<Seq<char>>,
    at: int,
)
    requires
        ascending(names),
        forall|i: int| 0 <= i < names.len() ==> tags.contains_key(#[trigger] names[i]),
        0 <= at < names.len(),
        !is_written(names[at], hidden),
    ensures
        tags_text(names, tags, hidden) == tags_text(
            names.remove(at),
            tags.remove(names[at]),
            hidden,
        ),
    decreases names.len(),
{
    let fewer = names.remove(at);
    let rest = tags.remove(names[at]);
    lemma_ascending_index(names, at);
    if at == names.len() - 1 {
        assert(fewer =~= names.drop_last());
        assert forall|i: int| 0 <= i < fewer.len() implies tags[#[trigger] fewer[i]]
            == rest[fewer[i]] by {
            assert(fewer[i] == names[i]);
            lemma_ascending_index(names, i);
        }
        lemma_tags_text_agree(fewer, tags, rest, hidden);
    } else {
        let shorter = names.drop_last();
        assert forall|i: int| 0 <= i < shorter.len() implies tags.contains_key(
            #[trigger] shorter[i],
        ) by {
            assert(shorter[i] == names[i]);
        }
        assert(ascending(shorter)) by {
            assert forall|i: int, j: int| 0 <= i < j < shorter.len() implies lex_less(
                #[trigger] shorter[i],
                #[trigger] shorter[j],
            ) by {
                assert(lex_less(names[i], names[j]));
            }
        }
        lemma_unwritten_tag(shorter, tags, hidden, at);
        assert(fewer.drop_last() =~= shorter.remove(at));
        assert(fewer.last() == names.last());
        lemma_ascending_index(names, names.len() - 1);
        assert(tags.contains_key(names[names.len() - 1]));
        assert(rest[names.last()] == tags[names.last()]);
    }
}

/// The text of tags depends on the values of the names gone through only.
proof fn lemma_tags_text_agree(
    names: Seq<Seq<char>>,
    tags: Map<Seq<char>, Seq<char>>,
    other: Map<Seq<char>, Seq<char>>,
    hidden: Set<Seq<char>>,
)
    requires
        forall|i: int| 0 <= i < names.len() ==> tags[#[trigger] names[i]] == other[names[i]],
    ensures
        tags_text(names, tags, hidden) == tags_text(names, other, hidden),
    decreases names.len(),
{
    if names.len() > 0 {
        assert forall|i: int| 0 <= i < names.drop_last().len() implies tags[#[trigger] names.drop_last()[i]]
            == other[names.drop_last()[i]] by {
            assert(names.drop_last()[i] == names[i]);
        }
        lemma_tags_text_agree(names.drop_last(), tags, other, hidden);
        assert(tags[names[names.len() - 1]] == other[names[names.len() - 1]]);
    }
}

/// A default tag never overrides a tag of the point: where the point has a
/// tag of some name, the line is the same with and without a default tag of
/// that name.
pub proof fn lemma_default_never_overrides(
    point: PointContent,
    now: ClockReading,
    precision: Option<TimeUnitV2>,
    defaults: Map<Seq<char>, Seq<char>>,
    name: Seq<char>,
)
    requires
        defaults.dom().finite(),
        point.tags.contains_key(name),
    ensures
        line_text(point, now, precision, Some(defaults)) == line_text(
            point,
            now,
            precision,
            Some(defaults.remove(name)),
        ),
{
    if defaults.contains_key(name) {
        lemma_names_exist(defaults);
        let names = names_in_order(defaults);
        assert(names.contains(name));
        let at = names.index_of(name);
        assert(0 <= at < names.len() && names[at] == name);
        assert forall|i: int| 0 <= i < names.len() implies defaults.contains_key(
            #[trigger] names[i],
        ) by {
            assert(names.contains(names[i]));
        }
        lemma_unwritten_tag(names, defaults, point.tags.dom(), at);
        crate::string_map::lemma_remove_at(names, names, at);
        let fewer = names.remove(at);
        assert forall|k: Seq<char>| fewer.contains(k) <==> defaults.remove(name).contains_key(
            k,
        ) by {
            if fewer.contains(k) {
                let p = fewer.index_of(k);
                assert(0 <= p < fewer.len() && fewer[p] == k);
                let from = if p < at { p } else { p + 1 };
                assert(names[from] == k);
                lemma_ascending_index(names, from);
                lemma_ascending_index(names, at);
            }
            if defaults.remove(name).contains_key(k) {
                assert(names.contains(k));
                let p = names.index_of(k);
                assert(0 <= p < names.len() && names[p] == k);
                if p < at {
                    assert(fewer[p] == k);
                } else {
                    assert(fewer[p - 1] == k);
                }
            }
        }
        lemma_names_exist(defaults.remove(name));
        crate::string_map::lemma_names_unique(
            fewer,
            names_in_order(defaults.remove(name)),
            defaults.remove(name),
        );
    } else {
        assert(defaults.remove(name) =~= defaults);
    }
}

/// Appends what the line says for the value of a field.
pub fn push_field_value(out: &mut String, value: &PointFieldValue)
    ensures
        final(out)@ == old(out)@ + field_value_text(value@),
{
    match value {
        PointFieldValue::Float(text) => {
            out.append(text.as_str());
        },
        PointFieldValue::Integer(number) => {
            push_signed_decimal(out, *number);
            out.push('i');
            assert(out@ =~= old(out)@ + field_value_text(value@));
        },
        PointFieldValue::UInteger(number) => {
            push_decimal(out, *number as u128);
            out.push('u');
            assert(out@ =~= old(out)@ + field_value_text(value@));
        },
        PointFieldValue::String(text) => {
            out.push('"');
            escape(text.as_str(), DOUBLE_QUOTE).write_to(out);
            out.push('"');
            assert(out@ =~= old(out)@ + field_value_text(value@));
        },
        PointFieldValue::Boolean(flag) => {
            if *flag {
                out.push('T');
            } else {
                out.push('F');
            }
            assert(out@ =~= old(out)@ + field_value_text(value@));
        },
    }
}

/// What the line says for the value of a field.
pub fn field_to_line_protocol_string(field: &PointFieldValue) -> (text: String)
    ensures
        text@ == field_value_text(field@),
{
    let mut text = String::new();
    push_field_value(&mut text, field);
    assert(text@ =~= field_value_text(field@));
    text
}

/// Appends the fields, in ascending order of their names, with commas between them.
fn push_fields(out: &mut String, fields: &StringMap<PointFieldValue>)
    ensures
        final(out)@ == old(out)@ + fields_text(
            names_in_order(field_contents(fields@)),
            field_contents(fields@),
        ),
{
    let ghost contents = field_contents(fields@);
    proof {
        use_type_invariant(fields);
        fields.lemma_names_of(contents);
        fields.lemma_in_order();
    }
    let mut i: usize = 0;
    assert(out@ =~= old(out)@ + fields_text(fields.names().take(0), contents));
    while i < fields.len()
        invariant
            i <= fields.names().len(),
            fields.wf(),
            contents == field_contents(fields@),
            forall|k: int|
                0 <= k < fields.names().len() ==> fields@.contains_key(#[trigger] fields.names()[k])
                    && fields@[fields.names()[k]] == fields.values()[k],
            out@ == old(out)@ + fields_text(fields.names().take(i as int), contents),
        decreases fields.names().len() - i,
    {
        let ghost so_far = out@;
        let ghost done = fields.names().take(i as int);
        let ghost next = fields.names().take(i + 1);
        if i > 0 {
            out.push(',');
        }
        escape(fields.name_at(i).as_str(), COMMA_EQ_SPACE).write_to(out);
        out.push('=');
        push_field_value(out, fields.value_at(i));
        proof {
            assert(next.drop_last() =~= done);
            assert(next.last() == fields.names()[i as int]);
            assert(contents[fields.names()[i as int]] == fields.values()[i as int]@);
            if i > 0 {
                assert(out@ =~= so_far + seq![','] + field_pair_text(
                    next.last(),
                    contents[next.last()],
                ));
            } else {
                assert(fields_text(done, contents) =~= Seq::<char>::empty());
                assert(out@ =~= so_far + field_pair_text(next[0], contents[next[0]]));
            }
            assert(out@ =~= old(out)@ + fields_text(next, contents));
        }
        i += 1;
    }
    assert(fields.names().take(fields.names().len() as int) =~= fields.names());
}

/// The names that hide a default tag: those of the tags of the point.
pub open spec fn hidden_by(tags: Option<&StringMap<String>>) -> Set<Seq<char>> {
    match tags {
        Some(map) => map@.dom(),
        None => Set::empty(),
    }
}

/// Appends the tags, in ascending order of their names, but for those with
/// an empty name and those that `over` has too.
fn push_tags(out: &mut String, tags: &StringMap<String>, over: Option<&StringMap<String>>)
    ensures
        final(out)@ == old(out)@ + tags_text(
            names_in_order(tag_texts(tags@)),
            tag_texts(tags@),
            hidden_by(over),
        ),
{
    let ghost texts = tag_texts(tags@);
    let ghost hidden = hidden_by(over);
    proof {
        use_type_invariant(tags);
        tags.lemma_names_of(texts);
        tags.lemma_in_order();
    }
    let mut i: usize = 0;
    assert(out@ =~= old(out)@ + tags_text(tags.names().take(0), texts, hidden));
    while i < tags.len()
        invariant
            i <= tags.names().len(),
            tags.wf(),
            texts == tag_texts(tags@),
            hidden == hidden_by(over),
            forall|k: int|
                0 <= k < tags.names().len() ==> tags@.contains_key(#[trigger] tags.names()[k])
                    && tags@[tags.names()[k]] == tags.values()[k],
            out@ == old(out)@ + tags_text(tags.names().take(i as int), texts, hidden),
        decreases tags.names().len() - i,
    {
        let ghost so_far = out@;
        let ghost done = tags.names().take(i as int);
        let ghost next = tags.names().take(i + 1);
        let name = tags.name_at(i);
        let covered = match over {
            Some(map) => map.contains_name(name.as_str()),
            None => false,
        };
        proof {
            assert(next.drop_last() =~= done);
            assert(next.last() == name@);
            assert(covered == hidden.contains(name@));
        }
        if !name.as_str().is_empty() && !covered {
            out.push(',');
            escape(name.as_str(), COMMA_EQ_SPACE).write_to(out);
            out.push('=');
            escape(tags.value_at(i).as_str(), COMMA_EQ_SPACE).write_to(out);
            proof {
                assert(texts[name@] == tags.values()[i as int]@);
                assert(out@ =~= so_far + tag_pair_text(name@, texts[name@]));
            }
        }
        i += 1;
    }
    assert(tags.names().take(tags.names().len() as int) =~= tags.names());
}

impl PointValues {
    /// The line of these values, with `now` for the time where they have
    /// no timestamp; `None` where they have no measurement or no field.
    pub fn to_line_protocol_at(
        &self,
        now: ClockReading,
        time_precision: Option<TimeUnitV2>,
        default_tags: Option<StringMap<String>>,
    ) -> (line: Option<String>)
        ensures
            text_of(line) == line_text(self@, now, time_precision, default_texts(default_tags)),
            line is Some <==> self@.measurement is Some && has_fields(self@),
    {
        let measurement = match self.measurement() {
            Some(name) => name,
            None => {
                return None;
            },
        };
        if !self.has_fields() {
            return None;
        }
        let tags = self.get_tags();
        let mut out = String::new();
        escape(measurement.as_str(), COMMA_SPACE).write_to(&mut out);
        match &default_tags {
            Some(defaults) => {
                push_tags(&mut out, defaults, Some(tags));
                assert(hidden_by(Some(tags)) =~= self@.tags.dom());
            },
            None => {},
        }
        push_tags(&mut out, tags, None);
        out.push(' ');
        push_fields(&mut out, self.get_fields());
        out.push(' ');
        match self.timestamp() {
            Some(time) => {
                push_decimal(&mut out, time as u128);
            },
            None => {
                let unit = match time_precision {
                    Some(unit) => unit,
                    None => TimeUnitV2::Nanosecond,
                };
                push_decimal(&mut out, now.to_unit(unit));
            },
        }
        assert(Some(out@) =~= line_text(self@, now, time_precision, default_texts(default_tags)));
        Some(out)
    }
}

} // verus!
