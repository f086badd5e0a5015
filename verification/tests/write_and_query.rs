use std::sync::Arc;

use arrow::array::{ArrayRef, Int64Array, RecordBatch};
use arrow::datatypes::{DataType, Field, Schema};
use influxdb3::client::options::{
    FlightOptions, PayloadMember, Precision, QueryPayload, QueryType, TimeUnitV2, TimeUnitV3,
    WriteOptions,
};
use influxdb3::query::by_batch::{BatchItems, QueryResultByBatch, StreamFailure};
use influxdb3::query::query_processor::{StreamAction, StreamEvent, StreamState};
use influxdb3::serializer::batch::Batch;
use influxdb3::serializer::Serializer;
use influxdb3::string_map::StringMap;
use influxdb3::write::{
    get_write_path, located, write_body, write_endpoint, write_outcome, WriteError,
};
use influxdb3::Value;

fn options(precision: Option<Precision>, no_sync: Option<bool>) -> WriteOptions {
    WriteOptions { precision, headers: None, gzip: false, no_sync, default_tags: None }
}

#[test]
fn default_write_goes_to_the_third_generation() {
    let (url, options) =
        get_write_path("http://localhost:8181", "test".to_string(), None, None).unwrap();
    assert_eq!(url, "http://localhost:8181/api/v3/write_lp?db=test&precision=nanosecond");
    assert_eq!(options.precision, Some(Precision::V3(TimeUnitV3::Nanosecond)));
    assert_eq!(options.no_sync, Some(true));
    assert!(options.gzip);
    assert!(options.headers.is_none());
    assert!(options.default_tags.is_none());
}

#[test]
fn write_without_no_sync_goes_to_the_second_generation() {
    let given = options(Some(Precision::V2(TimeUnitV2::Nanosecond)), Some(false));
    let (url, kept) = get_write_path(
        "https://example.com:8086",
        "my bucket".to_string(),
        Some("my&org".to_string()),
        Some(given),
    )
    .unwrap();
    assert_eq!(
        url,
        "https://example.com:8086/api/v2/write?bucket=my+bucket&precision=ns&org=my%26org"
    );
    assert_eq!(kept.no_sync, Some(false));
    assert!(!kept.gzip);

    let (url, _) = get_write_path(
        "http://h",
        "d".to_string(),
        None,
        Some(options(Some(Precision::V3(TimeUnitV3::Millisecond)), None)),
    )
    .unwrap();
    assert_eq!(url, "http://h/api/v2/write?bucket=d&precision=ms");
}

#[test]
fn precision_is_named_in_the_words_of_the_endpoint() {
    let word = |precision: Option<Precision>, no_sync: Option<bool>| {
        let given = options(precision, no_sync);
        let (_, parameters) = write_endpoint("http://h", "d".to_string(), None, &given);
        parameters[1].1.clone()
    };
    assert_eq!(word(Some(Precision::V2(TimeUnitV2::Second)), Some(true)), "second");
    assert_eq!(word(Some(Precision::V2(TimeUnitV2::Millisecond)), Some(true)), "millisecond");
    assert_eq!(word(Some(Precision::V3(TimeUnitV3::Microsecond)), Some(true)), "microsecond");
    assert_eq!(word(None, Some(true)), "nanosecond");
    assert_eq!(word(Some(Precision::V3(TimeUnitV3::Second)), Some(false)), "s");
    assert_eq!(word(Some(Precision::V2(TimeUnitV2::Millisecond)), None), "ms");
    assert_eq!(word(Some(Precision::V3(TimeUnitV3::Microsecond)), Some(false)), "us");
    assert_eq!(word(None, None), "ns");
}

#[test]
fn write_endpoint_lists_its_parameters() {
    let given = options(None, Some(true));
    let (url, parameters) =
        write_endpoint("http://h", "d".to_string(), Some("o".to_string()), &given);
    assert_eq!(url, "http://h/api/v3/write_lp");
    assert_eq!(
        parameters,
        vec![
            ("db".to_string(), "d".to_string()),
            ("precision".to_string(), "nanosecond".to_string()),
            ("org".to_string(), "o".to_string()),
        ]
    );
    let given = options(None, None);
    let (url, parameters) = write_endpoint("http://h", "d".to_string(), None, &given);
    assert_eq!(url, "http://h/api/v2/write");
    assert_eq!(
        parameters,
        vec![
            ("bucket".to_string(), "d".to_string()),
            ("precision".to_string(), "ns".to_string()),
        ]
    );
}

#[test]
fn an_address_that_is_no_url_is_an_error() {
    let path = get_write_path("not a url", "test".to_string(), None, None);
    assert_eq!(path.err(), Some(WriteError::InvalidUrl));
    let path = get_write_path("", "test".to_string(), None, None);
    assert_eq!(path.err(), Some(WriteError::InvalidUrl));
    assert_eq!(located(None, WriteOptions::default()).err(), Some(WriteError::InvalidUrl));
    let (url, _) = located(Some("u".to_string()), WriteOptions::default()).unwrap();
    assert_eq!(url, "u");
}

#[test]
fn lines_are_joined_by_line_feeds() {
    assert_eq!(write_body(&vec![]), "");
    assert_eq!(write_body(&vec!["a b=1i 1".to_string()]), "a b=1i 1");
    assert_eq!(
        write_body(&vec!["a".to_string(), "".to_string(), "c".to_string()]),
        "a\n\nc"
    );
}

#[test]
fn outcome_of_a_write_by_status() {
    assert_eq!(write_outcome(Ok(200)), Ok(()));
    assert_eq!(write_outcome(Ok(204)), Ok(()));
    assert_eq!(write_outcome(Ok(401)), Err(WriteError::Unauthorized));
    assert_eq!(write_outcome(Ok(500)), Err(WriteError::Unknown));
    assert_eq!(write_outcome(Ok(201)), Err(WriteError::Unknown));
    assert_eq!(write_outcome(Err(Some(401))), Err(WriteError::Unauthorized));
    assert_eq!(write_outcome(Err(Some(503))), Err(WriteError::Cancelled));
    assert_eq!(write_outcome(Err(None)), Err(WriteError::Cancelled));
}

#[test]
fn options_have_their_words_and_defaults() {
    assert_eq!(QueryType::Sql.str(), "sql");
    assert_eq!(QueryType::InfluxQl.str(), "influxql");
    assert_eq!(QueryType::FlightSql.str(), "flightsql");
    assert_eq!(QueryType::FlightSql.to_string(), "flightsql");
    assert_eq!(TimeUnitV2::Second.to_string(), "s");
    assert_eq!(TimeUnitV2::Millisecond.to_string(), "ms");
    assert_eq!(TimeUnitV2::Microsecond.to_string(), "us");
    assert_eq!(TimeUnitV2::Nanosecond.to_string(), "ns");
    assert_eq!(TimeUnitV3::Second.to_string(), "second");
    assert_eq!(TimeUnitV3::Millisecond.to_string(), "millisecond");
    assert_eq!(TimeUnitV3::Microsecond.to_string(), "microsecond");
    assert_eq!(TimeUnitV3::Nanosecond.to_string(), "nanosecond");
    assert_eq!(TimeUnitV2::Microsecond.to_v3(), TimeUnitV3::Microsecond);
    assert_eq!(TimeUnitV3::Second.to_v2(), TimeUnitV2::Second);
    assert_eq!(Precision::V3(TimeUnitV3::Millisecond).time_unit(), TimeUnitV2::Millisecond);
    assert_eq!(Precision::V2(TimeUnitV2::Second).time_unit(), TimeUnitV2::Second);
    let flight = FlightOptions::default();
    assert_eq!(flight.keep_alive_interval, Some(5));
    assert_eq!(flight.keep_alive_timeout, Some(20));
}

#[test]
fn a_query_is_sent_on_one_line() {
    let mut params: StringMap<String> = StringMap::new();
    params.insert("p".to_string(), "1".to_string());
    let payload = QueryPayload {
        database: "db".to_string(),
        query: "SELECT *\nFROM t\n\nWHERE a = 'x y'\n".to_string(),
        _type: None,
        params: Some(params),
    };
    assert_eq!(payload.query_text(), "SELECT * FROM t  WHERE a = 'x y' ");
    assert_eq!(payload.query_type(), QueryType::Sql);
    assert_eq!(
        payload.members(),
        vec![
            ("database".to_string(), PayloadMember::Text("db".to_string())),
            (
                "sql_query".to_string(),
                PayloadMember::Text("SELECT * FROM t  WHERE a = 'x y' ".to_string())
            ),
            ("query_type".to_string(), PayloadMember::Text("sql".to_string())),
            (
                "params".to_string(),
                PayloadMember::Entries(vec![("p".to_string(), "1".to_string())])
            ),
        ]
    );
    let payload = QueryPayload {
        database: "db".to_string(),
        query: "".to_string(),
        _type: Some(QueryType::InfluxQl),
        params: None,
    };
    assert_eq!(payload.query_text(), "");
    assert_eq!(payload.query_type(), QueryType::InfluxQl);
    assert_eq!(
        payload.members(),
        vec![
            ("database".to_string(), PayloadMember::Text("db".to_string())),
            ("sql_query".to_string(), PayloadMember::Text("".to_string())),
            ("query_type".to_string(), PayloadMember::Text("influxql".to_string())),
        ]
    );
}

fn run(events: &[StreamEvent]) -> Vec<(StreamState, StreamAction)> {
    let mut state = StreamState::start();
    let mut trace = Vec::new();
    for event in events {
        let (next, action) = state.step(*event);
        trace.push((next, action));
        state = next;
    }
    trace
}

#[test]
fn a_producer_publishes_each_batch_in_order() {
    assert_eq!(StreamState::start().next_action(), StreamAction::Pull);
    let trace = run(&[
        StreamEvent::Batch,
        StreamEvent::Decoded { items: 2 },
        StreamEvent::Sent,
        StreamEvent::Sent,
        StreamEvent::Batch,
        StreamEvent::Decoded { items: 0 },
        StreamEvent::UpstreamEnd,
        StreamEvent::Batch,
    ]);
    assert_eq!(
        trace,
        vec![
            (StreamState::Decoding, StreamAction::Decode),
            (StreamState::Publishing { total: 2, sent: 0 }, StreamAction::Publish { index: 0 }),
            (StreamState::Publishing { total: 2, sent: 1 }, StreamAction::Publish { index: 1 }),
            (StreamState::AwaitingBatch, StreamAction::Pull),
            (StreamState::Decoding, StreamAction::Decode),
            (StreamState::AwaitingBatch, StreamAction::Pull),
            (StreamState::Completed, StreamAction::Stop),
            (StreamState::Completed, StreamAction::Stop),
        ]
    );
}

#[test]
fn a_producer_fails_on_an_error_and_completes_when_the_consumer_is_gone() {
    let trace = run(&[StreamEvent::UpstreamError, StreamEvent::Batch]);
    assert_eq!(trace[0], (StreamState::Failed, StreamAction::Stop));
    assert_eq!(trace[1], (StreamState::Failed, StreamAction::Stop));

    let trace = run(&[StreamEvent::Batch, StreamEvent::DecodeError]);
    assert_eq!(trace[1], (StreamState::Failed, StreamAction::Stop));

    let trace = run(&[
        StreamEvent::Batch,
        StreamEvent::Decoded { items: 3 },
        StreamEvent::Sent,
        StreamEvent::ReceiverClosed,
        StreamEvent::Sent,
    ]);
    assert_eq!(trace[2].1, StreamAction::Publish { index: 1 });
    assert_eq!(trace[3], (StreamState::Completed, StreamAction::Stop));
    assert_eq!(trace[4], (StreamState::Completed, StreamAction::Stop));

    let trace = run(&[StreamEvent::Sent, StreamEvent::Decoded { items: 1 }]);
    assert_eq!(trace[1], (StreamState::AwaitingBatch, StreamAction::Pull));
    let odd = StreamState::Publishing { total: 1, sent: usize::MAX };
    assert_eq!(odd.step(StreamEvent::Sent).0, StreamState::AwaitingBatch);
}

fn numbers() -> Batch {
    let schema = Schema::new(vec![Field::new("n", DataType::Int64, true)]);
    let n: ArrayRef = Arc::new(Int64Array::from(vec![Some(7), None]));
    Batch { record_batch: RecordBatch::try_new(Arc::new(schema), vec![n]).unwrap() }
}

fn next_items<E>(
    serializer: Serializer,
    batch: Option<Result<Batch, E>>,
) -> Result<Option<BatchItems>, StreamFailure> {
    let mut result = QueryResultByBatch::new(Some(serializer));
    let items = result.next(batch);
    assert_eq!(result.serializer, serializer);
    items
}

#[test]
fn next_items_follow_the_strategy() {
    assert_eq!(QueryResultByBatch::new(None).serializer, Serializer::Unsafe);
    assert_eq!(QueryResultByBatch::serialize_batch_columnwise(&numbers()).len(), 2);
    let batch: Option<Result<Batch, String>> = Some(Ok(numbers()));
    match next_items(Serializer::Library, batch) {
        Ok(Some(BatchItems::Library(rows))) => {
            assert_eq!(rows.len(), 2);
            assert_eq!(rows[0].get("n"), Some(&Some(Value::Int64(7))));
            assert_eq!(rows[1].get("n"), Some(&None));
        }
        _ => panic!("rows of typed values expected"),
    }
    let batch: Option<Result<Batch, String>> = Some(Ok(numbers()));
    match next_items(Serializer::Unsafe, batch) {
        Ok(Some(BatchItems::Unsafe(rows))) => {
            assert_eq!(rows.len(), 2);
            assert_eq!(rows[0]["n"], 7);
        }
        _ => panic!("rows in generic form expected"),
    }
    let batch: Option<Result<Batch, String>> = Some(Ok(numbers()));
    assert!(matches!(next_items(Serializer::Raw, batch), Ok(None)));
}

#[test]
fn an_upstream_error_is_told_from_the_end_of_the_stream() {
    for strategy in [Serializer::Library, Serializer::Unsafe, Serializer::Raw] {
        let failed: Option<Result<Batch, String>> = Some(Err("lost".to_string()));
        assert!(matches!(next_items(strategy, failed), Err(StreamFailure::Upstream)));
        let ended: Option<Result<Batch, String>> = None;
        assert!(matches!(next_items(strategy, ended), Ok(None)));
    }
}

#[test]
fn a_batch_that_cannot_be_decoded_is_a_failure() {
    let odd = Arc::new(Schema::new(vec![Field::new(
        "x",
        DataType::Interval(arrow::datatypes::IntervalUnit::MonthDayNano),
        true,
    )]));
    let intervals: ArrayRef = Arc::new(arrow::array::IntervalMonthDayNanoArray::from(vec![
        arrow::datatypes::IntervalMonthDayNano::new(1, 2, 3),
    ]));
    let record_batch = RecordBatch::try_new(odd, vec![intervals]).unwrap();
    let items: Option<Result<Batch, String>> = Some(Ok(Batch { record_batch }));
    assert!(matches!(next_items(Serializer::Unsafe, items), Err(StreamFailure::Decode)));
}
