//! Where a write goes, what it carries, and what came of it.

use crate::client::options::{
    default_write_options, Precision, TimeUnitV2, TimeUnitV3, WriteOptions,
};
use crate::text::text_of;
use reqwest::Url;
use vstd::prelude::*;
use vstd::string::StringExecFns;

verus! {

/// Why a write did not succeed.
#[derive(Debug, Clone, Copy, PartialEq, Eq, Structural)]
pub enum WriteError {
    /// The address of the server and the path do not make a URL.
    InvalidUrl,
    /// The server did not accept the credentials.
    Unauthorized,
    /// The request did not get through.
    Cancelled,
    /// The server answered with a status that is neither success nor a refusal of the credentials.
    Unknown,
}

/// Whether a write with these options goes to the endpoint of the third generation.
pub open spec fn goes_to_v3(options: WriteOptions) -> bool {
    options.no_sync == Some(true)
}

/// The path of the endpoint.
pub open spec fn endpoint_path(v3: bool) -> Seq<char> {
    if v3 {
        "/api/v3/write_lp"@
    } else {
        "/api/v2/write"@
    }
}

/// The name of the query parameter that holds the database.
pub open spec fn database_parameter(v3: bool) -> Seq<char> {
    if v3 {
        "db"@
    } else {
        "bucket"@
    }
}

/// The word for the precision, in the words of the endpoint's generation;
/// nanoseconds where no precision is given.
pub open spec fn precision_word(precision: Option<Precision>, v3: bool) -> Seq<char> {
    let unit = match precision {
        Some(precision) => precision.unit(),
        None => TimeUnitV2::Nanosecond,
    };
    if v3 {
        match unit {
            TimeUnitV2::Second => TimeUnitV3::Second.word(),
            TimeUnitV2::Millisecond => TimeUnitV3::Millisecond.word(),
            TimeUnitV2::Microsecond => TimeUnitV3::Microsecond.word(),
            TimeUnitV2::Nanosecond => TimeUnitV3::Nanosecond.word(),
        }
    } else {
        unit.word()
    }
}

/// The query parameters of a write: the database, the precision, and the
/// organisation where one is given.
pub open spec fn query_parameters(
    database: Seq<char>,
    org: Option<Seq<char>>,
    options: WriteOptions,
) -> Seq<(Seq<char>, Seq<char>)> {
    let v3 = goes_to_v3(options);
    let first = seq![
        (database_parameter(v3), database),
        ("precision"@, precision_word(options.precision, v3)),
    ];
    match org {
        Some(org) => first.push(("org"@, org)),
        None => first,
    }
}

/// What pairs of strings hold.
pub open spec fn pairs_of(pairs: Seq<(String, String)>) -> Seq<(Seq<char>, Seq<char>)> {
    Seq::new(pairs.len(), |i: int| (pairs[i].0@, pairs[i].1@))
}

/// What `Url::parse_with_params` makes of an address and query parameters:
/// the URL as text, or `None` where the address is not an absolute URL.
pub uninterp spec fn url_with_params(input: Seq<char>, params: Seq<(Seq<char>, Seq<char>)>) -> Option<
    Seq<char>,
>;

/// `Url::parse_with_params` parses `input` as an absolute URL and adds
/// `params` to its query; the URL is handed back as text, and `None` in
/// place of a parse error.
#[verifier::external_body]
fn parse_with_params(input: &str, params: &Vec<(String, String)>) -> (url: Option<String>)
    ensures
        match url {
            Some(text) => url_with_params(input@, pairs_of(params@)) == Some(text@),
            None => url_with_params(input@, pairs_of(params@)) is None,
        },
{
    match Url::parse_with_params(input, params) {
        Ok(url) => Some(String::from(url)),
        Err(_) => None,
    }
}

/// The address and the query parameters of a write to the server at `url`.
pub fn write_endpoint(
    url: &str,
    database: String,
    org: Option<String>,
    write_options: &WriteOptions,
) -> (endpoint: (String, Vec<(String, String)>))
    ensures
        endpoint.0@ == url@ + endpoint_path(goes_to_v3(*write_options)),
        pairs_of(endpoint.1@) == query_parameters(database@, text_of(org), *write_options),
{
    let v3 = match write_options.no_sync {
        Some(no_sync) => no_sync,
        None => false,
    };
    let write_path = if v3 {
        "/api/v3/write_lp"
    } else {
        "/api/v2/write"
    };
    let final_url = String::from_str(url).concat(write_path);
    let unit = match write_options.precision {
        Some(precision) => precision.time_unit(),
        None => TimeUnitV2::Nanosecond,
    };
    let precision = if v3 {
        unit.to_v3().to_string()
    } else {
        unit.to_string()
    };
    let mut query_params: Vec<(String, String)> = Vec::new();
    if v3 {
        query_params.push((String::from_str("db"), database));
    } else {
        query_params.push((String::from_str("bucket"), database));
    }
    query_params.push((String::from_str("precision"), precision));
    match org {
        Some(org) => {
            query_params.push((String::from_str("org"), org));
        },
        None => {},
    }
    assert(pairs_of(query_params@) =~= query_parameters(database@, text_of(org), *write_options));
    (final_url, query_params)
}

/// What a write is sent to, given what parsing its address came to.
pub fn located(parsed: Option<String>, write_options: WriteOptions) -> (path: Result<
    (String, WriteOptions),
    WriteError,
>)
    ensures
        path == match parsed {
            Some(url) => Ok((url, write_options)),
            None => Err(WriteError::InvalidUrl),
        },
{
    match parsed {
        Some(url) => Ok((url, write_options)),
        None => Err(WriteError::InvalidUrl),
    }
}

/// The options that hold for a write: the given ones, or the default ones
/// where none are given.
pub open spec fn options_in_force(given: Option<WriteOptions>) -> WriteOptions {
    match given {
        Some(options) => options,
        None => default_write_options(),
    }
}

/// The URL that `Url::parse_with_params` makes for a write, if it makes one.
pub open spec fn write_url(
    url: Seq<char>,
    database: Seq<char>,
    org: Option<Seq<char>>,
    options: WriteOptions,
) -> Option<Seq<char>> {
    url_with_params(
        url + endpoint_path(goes_to_v3(options)),
        query_parameters(database, org, options),
    )
}

/// The URL of a write to `database` on the server at `url`, with the
/// options that hold for it; an error where the address of the server and
/// the path do not make a URL.
pub fn get_write_path(
    url: &str,
    database: String,
    org: Option<String>,
    _write_options: Option<WriteOptions>,
) -> (path: Result<(String, WriteOptions), WriteError>)
    ensures
        path is Ok <==> write_url(
            url@,
            database@,
            text_of(org),
            options_in_force(_write_options),
        ) is Some,
        path matches Ok((text, options)) ==> options == options_in_force(_write_options)
            && Some(text@) == write_url(url@, database@, text_of(org), options),
        path matches Err(error) ==> error == WriteError::InvalidUrl,
{
    let write_options = match _write_options {
        Some(given) => given,
        None => WriteOptions::default(),
    };
    let (final_url, query_params) = write_endpoint(url, database, org, &write_options);
    let parsed = parse_with_params(final_url.as_str(), &query_params);
    located(parsed, write_options)
}

/// The body of a write: the lines, with a line feed between them.
pub open spec fn joined_lines(lines: Seq<String>) -> Seq<char>
    decreases lines.len(),
{
    if lines.len() == 0 {
        Seq::empty()
    } else if lines.len() == 1 {
        lines[0]@
    } else {
        joined_lines(lines.drop_last()) + seq!['\n'] + lines.last()@
    }
}

/// The body of a write: the lines, with a line feed between them.
pub fn write_body(lines: &Vec<String>) -> (body: String)
    ensures
        body@ == joined_lines(lines@),
{
    let mut body = String::new();
    let mut i: usize = 0;
    assert(lines@.take(0) =~= Seq::empty());
    while i < lines.len()
        invariant
            i <= lines@.len(),
            body@ == joined_lines(lines@.take(i as int)),
        decreases lines@.len() - i,
    {
        let ghost so_far = body@;
        if i > 0 {
            body.push('\n');
        }
        body.append(lines[i].as_str());
        proof {
            let next = lines@.take(i + 1);
            assert(next.drop_last() =~= lines@.take(i as int));
            assert(next.last() == lines@[i as int]);
            if i == 0 {
                assert(body@ =~= lines@[0]@);
            } else {
                assert(body@ =~= so_far + seq!['\n'] + lines@[i as int]@);
            }
        }
        i += 1;
    }
    assert(lines@.take(lines@.len() as int) =~= lines@);
    body
}

/// What came of sending a write: the status of the response, or, where
/// the request failed, the status that the failure carries, if any.
pub open spec fn outcome_of(response: Result<u16, Option<u16>>) -> Result<(), WriteError> {
    match response {
        Ok(status) => if status == 200 || status == 204 {
            Ok(())
        } else if status == 401 {
            Err(WriteError::Unauthorized)
        } else {
            Err(WriteError::Unknown)
        },
        Err(Some(status)) => if status == 401 {
            Err(WriteError::Unauthorized)
        } else {
            Err(WriteError::Cancelled)
        },
        Err(None) => Err(WriteError::Cancelled),
    }
}

/// Whether a write succeeded: with status 200 or 204 it did; status 401,
/// in a response or in a failure, is a refusal of the credentials; any
/// other failure means that the request did not get through, and any other
/// status is unknown.
pub fn write_outcome(response: Result<u16, Option<u16>>) -> (outcome: Result<(), WriteError>)
    ensures
        outcome == outcome_of(response),
{
    match response {
        Ok(status) => {
            if status == 200 || status == 204 {
                Ok(())
            } else if status == 401 {
                Err(WriteError::Unauthorized)
            } else {
                Err(WriteError::Unknown)
            }
        },
        Err(Some(status)) => {
            if status == 401 {
                Err(WriteError::Unauthorized)
            } else {
                Err(WriteError::Cancelled)
            }
        },
        Err(None) => Err(WriteError::Cancelled),
    }
}

} // verus!
