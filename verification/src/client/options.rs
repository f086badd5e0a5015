//! Options of queries and writes, and the words by which they go over the wire.

use crate::string_map::StringMap;
use vstd::prelude::*;
use vstd::string::StringExecFns;

verus! {

/// The language of a query.
#[derive(Debug, Clone, Copy, PartialEq, Eq, Hash, Structural)]
pub enum QueryType {
    Sql,
    InfluxQl,
    FlightSql,
}

impl QueryType {
    /// The word for this query language in a query payload.
    pub open spec fn word(self) -> Seq<char> {
        match self {
            QueryType::Sql => "sql"@,
            QueryType::InfluxQl => "influxql"@,
            QueryType::FlightSql => "flightsql"@,
        }
    }

    /// The word for this query language in a query payload.
    pub fn str(&self) -> (word: &'static str)
        ensures
            word@ == self.word(),
    {
        match self {
            QueryType::Sql => "sql",
            QueryType::InfluxQl => "influxql",
            QueryType::FlightSql => "flightsql",
        }
    }

    /// The same word, as an owned string.
    pub fn to_string(&self) -> (word: String)
        ensures
            word@ == self.word(),
    {
        String::from_str(self.str())
    }
}

/// A unit of time, named as the second generation of the write interface names it.
#[derive(Debug, Clone, Copy, PartialEq, Eq, Hash, PartialOrd, Ord, Structural)]
pub enum TimeUnitV2 {
    /// Time in seconds.
    Second,
    /// Time in milliseconds.
    Millisecond,
    /// Time in microseconds.
    Microsecond,
    /// Time in nanoseconds.
    Nanosecond,
}

impl TimeUnitV2 {
    /// The short word for this unit: `s`, `ms`, `us` or `ns`.
    pub open spec fn word(self) -> Seq<char> {
        match self {
            TimeUnitV2::Second => "s"@,
            TimeUnitV2::Millisecond => "ms"@,
            TimeUnitV2::Microsecond => "us"@,
            TimeUnitV2::Nanosecond => "ns"@,
        }
    }

    /// The short word for this unit.
    pub fn to_string(&self) -> (word: String)
        ensures
            word@ == self.word(),
    {
        match self {
            TimeUnitV2::Second => String::from_str("s"),
            TimeUnitV2::Millisecond => String::from_str("ms"),
            TimeUnitV2::Microsecond => String::from_str("us"),
            TimeUnitV2::Nanosecond => String::from_str("ns"),
        }
    }

    /// The same unit, named as the third generation names it.
    pub fn to_v3(&self) -> (unit: TimeUnitV3)
        ensures
            unit == match *self {
                TimeUnitV2::Second => TimeUnitV3::Second,
                TimeUnitV2::Millisecond => TimeUnitV3::Millisecond,
                TimeUnitV2::Microsecond => TimeUnitV3::Microsecond,
                TimeUnitV2::Nanosecond => TimeUnitV3::Nanosecond,
            },
    {
        match self {
            TimeUnitV2::Second => TimeUnitV3::Second,
            TimeUnitV2::Millisecond => TimeUnitV3::Millisecond,
            TimeUnitV2::Microsecond => TimeUnitV3::Microsecond,
            TimeUnitV2::Nanosecond => TimeUnitV3::Nanosecond,
        }
    }
}

/// A unit of time, named as the third generation of the write interface names it.
#[derive(Debug, Clone, Copy, PartialEq, Eq, Hash, PartialOrd, Ord, Structural)]
pub enum TimeUnitV3 {
    /// Time in seconds.
    Second,
    /// Time in milliseconds.
    Millisecond,
    /// Time in microseconds.
    Microsecond,
    /// Time in nanoseconds.
    Nanosecond,
}

impl TimeUnitV3 {
    /// The long word for this unit: `second`, `millisecond`, `microsecond` or `nanosecond`.
    pub open spec fn word(self) -> Seq<char> {
        match self {
            TimeUnitV3::Second => "second"@,
            TimeUnitV3::Millisecond => "millisecond"@,
            TimeUnitV3::Microsecond => "microsecond"@,
            TimeUnitV3::Nanosecond => "nanosecond"@,
        }
    }

    /// The long word for this unit.
    pub fn to_string(&self) -> (word: String)
        ensures
            word@ == self.word(),
    {
        match self {
            TimeUnitV3::Second => String::from_str("second"),
            TimeUnitV3::Millisecond => String::from_str("millisecond"),
            TimeUnitV3::Microsecond => String::from_str("microsecond"),
            TimeUnitV3::Nanosecond => String::from_str("nanosecond"),
        }
    }

    /// The same unit, named as the second generation names it.
    pub fn to_v2(&self) -> (unit: TimeUnitV2)
        ensures
            unit == match *self {
                TimeUnitV3::Second => TimeUnitV2::Second,
                TimeUnitV3::Millisecond => TimeUnitV2::Millisecond,
                TimeUnitV3::Microsecond => TimeUnitV2::Microsecond,
                TimeUnitV3::Nanosecond => TimeUnitV2::Nanosecond,
            },
    {
        match self {
            TimeUnitV3::Second => TimeUnitV2::Second,
            TimeUnitV3::Millisecond => TimeUnitV2::Millisecond,
            TimeUnitV3::Microsecond => TimeUnitV2::Microsecond,
            TimeUnitV3::Nanosecond => TimeUnitV2::Nanosecond,
        }
    }
}

/// The precision of the timestamps of a write, in the words of either generation.
#[derive(Debug, Clone, Copy, PartialEq, Eq, Hash, PartialOrd, Ord, Structural)]
pub enum Precision {
    V2(TimeUnitV2),
    V3(TimeUnitV3),
}

impl Precision {
    /// The unit, whichever generation named it.
    pub open spec fn unit(self) -> TimeUnitV2 {
        match self {
            Precision::V2(unit) => unit,
            Precision::V3(TimeUnitV3::Second) => TimeUnitV2::Second,
            Precision::V3(TimeUnitV3::Millisecond) => TimeUnitV2::Millisecond,
            Precision::V3(TimeUnitV3::Microsecond) => TimeUnitV2::Microsecond,
            Precision::V3(TimeUnitV3::Nanosecond) => TimeUnitV2::Nanosecond,
        }
    }

    /// The unit, whichever generation named it.
    pub fn time_unit(&self) -> (unit: TimeUnitV2)
        ensures
            unit == self.unit(),
    {
        match self {
            Precision::V2(unit) => *unit,
            Precision::V3(unit) => unit.to_v2(),
        }
    }
}

/// Options of a write.
pub struct WriteOptions {
    /// Precision of the timestamps of the points written; nanoseconds where there is none.
    pub precision: Option<Precision>,
    /// Headers sent with every write request, beside the client's own.
    pub headers: Option<StringMap<String>>,
    /// Whether large request bodies are compressed.
    pub gzip: bool,
    /// Whether the server answers before the data is persisted. It also
    /// selects the endpoint: only the third generation knows this option.
    pub no_sync: Option<bool>,
    /// Tags added to every point that does not set them itself.
    pub default_tags: Option<StringMap<String>>,
}

/// The options of a write for which none are given: nanoseconds, in the
/// words of the third generation, no headers and no default tags, large
/// bodies compressed, and no waiting for the data to be persisted.
pub open spec fn default_write_options() -> WriteOptions {
    WriteOptions {
        precision: Some(Precision::V3(TimeUnitV3::Nanosecond)),
        headers: None,
        gzip: true,
        no_sync: Some(true),
        default_tags: None,
    }
}

impl Default for WriteOptions {
    fn default() -> (options: Self)
        ensures
            options == default_write_options(),
    {
        WriteOptions {
            precision: Some(Precision::V3(TimeUnitV3::Nanosecond)),
            headers: None,
            gzip: true,
            no_sync: Some(true),
            default_tags: None,
        }
    }
}

/// Options of the query connection, in seconds.
#[derive(Clone)]
pub struct FlightOptions {
    pub keep_alive_interval: Option<u32>,
    pub keep_alive_timeout: Option<u32>,
}

impl Default for FlightOptions {
    fn default() -> (options: Self)
        ensures
            options.keep_alive_interval == Some(5u32),
            options.keep_alive_timeout == Some(20u32),
    {
        FlightOptions { keep_alive_interval: Some(5), keep_alive_timeout: Some(20) }
    }
}

/// A query as it is submitted.
pub struct QueryPayload {
    pub database: String,
    pub query: String,
    pub _type: Option<QueryType>,
    pub params: Option<StringMap<String>>,
}

/// A text with each line feed replaced by a space.
pub open spec fn on_one_line(text: Seq<char>) -> Seq<char> {
    Seq::new(
        text.len(),
        |i: int|
            if text[i] == '\n' {
                ' '
            } else {
                text[i]
            },
    )
}

/// The value of a member of the query object: a text, or an object of texts.
#[derive(Debug, PartialEq, Eq)]
pub enum PayloadMember {
    Text(String),
    Entries(Vec<(String, String)>),
}

/// What the value of a member holds.
pub enum MemberContent {
    Text(Seq<char>),
    Entries(Seq<(Seq<char>, Seq<char>)>),
}

impl View for PayloadMember {
    type V = MemberContent;

    open spec fn view(&self) -> MemberContent {
        match self {
            PayloadMember::Text(text) => MemberContent::Text(text@),
            PayloadMember::Entries(entries) => MemberContent::Entries(
                Seq::new(entries@.len(), |i: int| (entries@[i].0@, entries@[i].1@)),
            ),
        }
    }
}

/// What named members hold.
pub open spec fn members_content(members: Seq<(String, PayloadMember)>) -> Seq<
    (Seq<char>, MemberContent),
> {
    Seq::new(members.len(), |i: int| (members[i].0@, members[i].1@))
}

/// The parameters of a query, in ascending order of their names.
pub open spec fn parameter_entries(params: StringMap<String>) -> Seq<(Seq<char>, Seq<char>)> {
    Seq::new(params.names().len(), |i: int| (params.names()[i], params.values()[i]@))
}

/// The members of the query object, in order: the database, the query on
/// one line, the language of the query, and the parameters where there
/// are any given.
pub open spec fn payload_members(payload: QueryPayload) -> Seq<(Seq<char>, MemberContent)> {
    let language = match payload._type {
        Some(given) => given,
        None => QueryType::Sql,
    };
    let first = seq![
        ("database"@, MemberContent::Text(payload.database@)),
        ("sql_query"@, MemberContent::Text(on_one_line(payload.query@))),
        ("query_type"@, MemberContent::Text(language.word())),
    ];
    match payload.params {
        Some(params) => first.push(("params"@, MemberContent::Entries(parameter_entries(params)))),
        None => first,
    }
}

impl QueryPayload {
    /// The members of the query object, in order.
    pub fn members(&self) -> (members: Vec<(String, PayloadMember)>)
        ensures
            members_content(members@) == payload_members(*self),
    {
        let mut members: Vec<(String, PayloadMember)> = Vec::new();
        members.push((String::from_str("database"), PayloadMember::Text(self.database.clone())));
        members.push((String::from_str("sql_query"), PayloadMember::Text(self.query_text())));
        members.push(
            (String::from_str("query_type"), PayloadMember::Text(self.query_type().to_string())),
        );
        match &self.params {
            Some(params) => {
                let mut entries: Vec<(String, String)> = Vec::new();
                let mut i: usize = 0;
                let count = params.len();
                while i < count
                    invariant
                        i <= count,
                        count == params.names().len(),
                        count == params.values().len(),
                        entries@.len() == i,
                        forall|j: int|
                            0 <= j < i ==> (#[trigger] entries@[j]).0@ == params.names()[j]
                                && entries@[j].1@ == params.values()[j]@,
                    decreases params.names().len() - i,
                {
                    entries.push((params.name_at(i).clone(), params.value_at(i).clone()));
                    i += 1;
                }
                let member = PayloadMember::Entries(entries);
                assert(member@ == MemberContent::Entries(parameter_entries(*params))) by {
                    assert(Seq::new(entries@.len(), |i: int| (entries@[i].0@, entries@[i].1@))
                        =~= parameter_entries(*params));
                }
                members.push((String::from_str("params"), member));
            },
            None => {},
        }
        assert(members_content(members@) =~= payload_members(*self));
        members
    }

    /// The language of the query: SQL where none is given.
    pub fn query_type(&self) -> (language: QueryType)
        ensures
            language == match self._type {
                Some(given) => given,
                None => QueryType::Sql,
            },
    {
        match self._type {
            Some(given) => given,
            None => QueryType::Sql,
        }
    }

    /// The query text as it is transmitted: on one line, a space in place
    /// of each line feed.
    pub fn query_text(&self) -> (text: String)
        ensures
            text@ == on_one_line(self.query@),
    {
        let mut text = String::new();
        for c in it: self.query.as_str().chars()
            invariant
                it.seq() == self.query@,
                text@ == on_one_line(self.query@).take(it.index() as int),
        {
            if c == '\n' {
                text.push(' ');
            } else {
                text.push(c);
            }
            assert(on_one_line(self.query@).take(it.index() + 1) =~= on_one_line(
                self.query@,
            ).take(it.index() as int).push(on_one_line(self.query@)[it.index() as int]));
        }
        assert(on_one_line(self.query@).take(self.query@.len() as int) =~= on_one_line(
            self.query@,
        ));
        text
    }
}

} // verus!
