use influxdb3::client::options::TimeUnitV2;
use influxdb3::point::escape::{escape, unescape, COMMA_EQ_SPACE, COMMA_SPACE, DOUBLE_QUOTE};
use influxdb3::point::line::{field_to_line_protocol_string, ClockReading};
use influxdb3::point::point_values::{FieldError, PointFieldType, PointFieldValue, PointValues};
use influxdb3::point::Point;
use influxdb3::string_map::StringMap;
use influxdb3::text::is_float;

#[test]
fn test_string_escape() {
    assert_eq!(
        format!("\"{}\"", escape(r#"foo"#, DOUBLE_QUOTE).to_string()),
        r#""foo""#
    );
    assert_eq!(
        format!("\"{}\"", escape(r"foo \ bar", DOUBLE_QUOTE).to_string()),
        r#""foo \\ bar""#
    );
    assert_eq!(
        format!("\"{}\"", escape(r#"foo " bar"#, DOUBLE_QUOTE).to_string()),
        r#""foo \" bar""#
    );
    assert_eq!(
        format!("\"{}\"", escape(r#"foo \" bar"#, DOUBLE_QUOTE).to_string()),
        r#""foo \\\" bar""#
    );
}

#[test]
fn test_lp_builder() {
    const PLAIN: &str = "plain";
    const WITH_SPACE: &str = "with space";
    const WITH_COMMA: &str = "with,comma";
    const WITH_EQ: &str = "with=eq";
    const WITH_DOUBLE_QUOTE: &str = r#"with"doublequote"#;
    const WITH_SINGLE_QUOTE: &str = "with'singlequote";
    const WITH_BACKSLASH: &str = r"with\ backslash";

    let mut line_one = Point::from_measurement("tag_keys".to_string());

    line_one.set_tag(PLAIN.to_string(), "dummy".to_string());
    line_one.set_tag(WITH_SPACE.to_string(), "dummy".to_string());
    line_one.set_tag(WITH_COMMA.to_string(), "dummy".to_string());
    line_one.set_tag(WITH_EQ.to_string(), "dummy".to_string());
    line_one.set_tag(WITH_DOUBLE_QUOTE.to_string(), "dummy".to_string());
    line_one.set_tag(WITH_SINGLE_QUOTE.to_string(), "dummy".to_string());
    line_one.set_tag(WITH_BACKSLASH.to_string(), "dummy".to_string());
    line_one.set_boolean_field("dummy".to_string(), true);

    let mut line_two = Point::from_measurement("tag_values".to_string());

    line_two.set_tag("plain".to_string(), PLAIN.to_string());
    line_two.set_tag("withspace".to_string(), WITH_SPACE.to_string());
    line_two.set_tag("withcomma".to_string(), WITH_COMMA.to_string());
    line_two.set_tag("witheq".to_string(), WITH_EQ.to_string());
    line_two.set_tag("withdoublequote".to_string(), WITH_DOUBLE_QUOTE.to_string());
    line_two.set_tag("withsinglaquote".to_string(), WITH_SINGLE_QUOTE.to_string());
    line_two.set_tag("withbackslash".to_string(), WITH_BACKSLASH.to_string());
    line_two.set_boolean_field("dummy".to_string(), true);

    let mut line_three = Point::from_measurement("field keys".to_string());

    line_three.set_boolean_field(PLAIN.to_string(), true);
    line_three.set_boolean_field(WITH_SPACE.to_string(), true);
    line_three.set_boolean_field(WITH_COMMA.to_string(), true);
    line_three.set_boolean_field(WITH_EQ.to_string(), true);
    line_three.set_boolean_field(WITH_DOUBLE_QUOTE.to_string(), true);
    line_three.set_boolean_field(WITH_SINGLE_QUOTE.to_string(), true);
    line_three.set_boolean_field(WITH_BACKSLASH.to_string(), true);

    let mut line_four = Point::from_measurement("field values".to_string());

    line_four.set_boolean_field("mybool".to_string(), false);
    line_four.set_int_field("mysigned".to_string(), 51_i64);
    line_four.set_uinteger_field("myunsigned".to_string(), 51_u32);
    line_four.set_float_field("myfloat".to_string(), 51.0_f64.to_string());
    line_four.set_string_field("mystring".to_string(), "some value".to_string());
    line_four.set_string_field(
        "mystringwithquotes".to_string(),
        "some \" value".to_string(),
    );

    let mut line_five = Point::from_measurement(PLAIN.to_string());
    line_five.set_boolean_field("dummy".to_string(), true);

    let mut line_six = Point::from_measurement(WITH_SPACE.to_string());
    line_six.set_boolean_field("dummy".to_string(), true);

    let mut line_seven = Point::from_measurement(WITH_COMMA.to_string());
    line_seven.set_boolean_field("dummy".to_string(), true);

    let mut line_eight = Point::from_measurement(WITH_EQ.to_string());
    line_eight.set_boolean_field("dummy".to_string(), true);

    let mut line_nine = Point::from_measurement(WITH_DOUBLE_QUOTE.to_string());
    line_nine.set_boolean_field("dummy".to_string(), true);

    let mut line_ten = Point::from_measurement(WITH_SINGLE_QUOTE.to_string());
    line_ten.set_boolean_field("dummy".to_string(), true);

    let mut line_eleven = Point::from_measurement(WITH_BACKSLASH.to_string());
    line_eleven.set_boolean_field("dummy".to_string(), true);

    let mut line_twelve = Point::from_measurement("without timestamp".to_string());
    line_twelve.set_boolean_field("dummy".to_string(), true);

    let mut line_thirteen = Point::from_measurement("with timestamp".to_string());
    line_thirteen.set_boolean_field("dummy".to_string(), true);
    line_thirteen.set_timestamp(1234);

    let lines: [Point; 13] = [
        line_one,
        line_two,
        line_three,
        line_four,
        line_five,
        line_six,
        line_seven,
        line_eight,
        line_nine,
        line_ten,
        line_eleven,
        line_twelve,
        line_thirteen,
    ];
    let lp: Vec<String> = lines
        .into_iter()
        .map(|l| l.to_line_protocol(None, None).unwrap())
        .collect();
    println!("-----\n{}-----", lp.join("\n"));
    assert_eq!(lp.len(), 13);
    assert_eq!(lp[12], "with\\ timestamp dummy=T 1234");
}

fn fixed_clock() -> ClockReading {
    ClockReading { seconds: 1_700_000_000, nanoseconds: 123_456_789 }
}

#[test]
fn tags_are_written_in_ascending_order() {
    let mut point = Point::new("m".to_string());
    point.set_tag("z".to_string(), "1".to_string());
    point.set_tag("a".to_string(), "2".to_string());
    point.set_boolean_field("f".to_string(), true);
    point.set_timestamp(7);
    assert_eq!(point.to_line_protocol(None, None).unwrap(), "m,a=2,z=1 f=T 7");
    assert_eq!(point.tag_names(), vec!["a".to_string(), "z".to_string()]);
}

#[test]
fn default_tag_does_not_override() {
    let mut point = Point::new("cpu".to_string());
    point.set_tag("host".to_string(), "serverA".to_string());
    point.set_int_field("load".to_string(), 3);
    point.set_timestamp(1);
    let mut defaults: StringMap<String> = StringMap::new();
    defaults.insert("host".to_string(), "default".to_string());
    defaults.insert("region".to_string(), "eu west".to_string());
    defaults.insert("".to_string(), "nameless".to_string());
    assert_eq!(
        point.to_line_protocol(None, Some(defaults)).unwrap(),
        "cpu,region=eu\\ west,host=serverA load=3i 1"
    );
}

#[test]
fn field_values_are_formatted_by_type() {
    assert_eq!(field_to_line_protocol_string(&PointFieldValue::Integer(51)), "51i");
    assert_eq!(field_to_line_protocol_string(&PointFieldValue::Integer(-51)), "-51i");
    assert_eq!(
        field_to_line_protocol_string(&PointFieldValue::Integer(i64::MIN)),
        "-9223372036854775808i"
    );
    assert_eq!(field_to_line_protocol_string(&PointFieldValue::Integer(0)), "0i");
    assert_eq!(field_to_line_protocol_string(&PointFieldValue::UInteger(51)), "51u");
    assert_eq!(
        field_to_line_protocol_string(&PointFieldValue::UInteger(u32::MAX)),
        "4294967295u"
    );
    assert_eq!(field_to_line_protocol_string(&PointFieldValue::Boolean(false)), "F");
    assert_eq!(field_to_line_protocol_string(&PointFieldValue::Boolean(true)), "T");
    assert_eq!(
        field_to_line_protocol_string(&PointFieldValue::Float(51.0_f64.to_string())),
        "51"
    );
    assert_eq!(
        field_to_line_protocol_string(&PointFieldValue::String("a\"b".to_string())),
        "\"a\\\"b\""
    );
    assert_eq!(
        field_to_line_protocol_string(&PointFieldValue::String("a\\b c,d=e".to_string())),
        "\"a\\\\b c,d=e\""
    );
}

#[test]
fn point_without_field_or_measurement_has_no_line() {
    let mut point = Point::new("m".to_string());
    point.set_tag("a".to_string(), "b".to_string());
    assert!(!point.has_fields());
    assert_eq!(point.to_line_protocol(None, None), None);
    assert_eq!(point.to_string(), "");
    point.set_boolean_field("f".to_string(), true);
    assert!(point.has_fields());
    assert!(point.to_line_protocol(None, None).is_some());

    let mut values = PointValues::default();
    values.set_boolean_field("f".to_string(), true);
    let nameless = Point::from_values(values);
    assert_eq!(nameless.measurement(), None);
    assert_eq!(nameless.to_line_protocol(None, None), None);
}

#[test]
fn measurement_with_space_in_seconds() {
    let mut point = Point::new("with space".to_string());
    point.set_boolean_field("dummy".to_string(), true);
    let line = point.to_line_protocol(Some(TimeUnitV2::Second), None).unwrap();
    let prefix = "with\\ space dummy=T ";
    assert!(line.starts_with(prefix));
    let time = &line[prefix.len()..];
    assert_eq!(time.len(), 10);
    assert!(time.chars().all(|c| c.is_ascii_digit()));
}

#[test]
fn time_is_written_in_the_unit_asked_for() {
    let mut point = Point::new("m".to_string());
    point.set_boolean_field("f".to_string(), true);
    let now = fixed_clock();
    assert_eq!(
        point.to_line_protocol_at(now, Some(TimeUnitV2::Second), None).unwrap(),
        "m f=T 1700000000"
    );
    assert_eq!(
        point.to_line_protocol_at(now, Some(TimeUnitV2::Millisecond), None).unwrap(),
        "m f=T 1700000000123"
    );
    assert_eq!(
        point.to_line_protocol_at(now, Some(TimeUnitV2::Microsecond), None).unwrap(),
        "m f=T 1700000000123456"
    );
    assert_eq!(
        point.to_line_protocol_at(now, Some(TimeUnitV2::Nanosecond), None).unwrap(),
        "m f=T 1700000000123456789"
    );
    assert_eq!(
        point.to_line_protocol_at(now, None, None).unwrap(),
        "m f=T 1700000000123456789"
    );
    assert_eq!(now.to_unit(TimeUnitV2::Millisecond), 1_700_000_000_123);
    assert_eq!(ClockReading::since_epoch(Some((1_700_000_000, 123_456_789))), now);
    assert_eq!(
        ClockReading::since_epoch(None),
        ClockReading { seconds: 0, nanoseconds: 0 }
    );
    let read = ClockReading::now();
    assert!(read.seconds > 1_600_000_000);
    assert!(read.nanoseconds < 1_000_000_000);
    let far = ClockReading { seconds: u64::MAX, nanoseconds: 999_999_999 };
    assert_eq!(
        far.to_unit(TimeUnitV2::Nanosecond),
        18_446_744_073_709_551_615_999_999_999
    );
    point.set_timestamp(0);
    assert_eq!(point.to_line_protocol_at(now, None, None).unwrap(), "m f=T 0");
}

#[test]
fn names_and_values_are_escaped() {
    let mut point = Point::new("m=1, x".to_string());
    point.set_tag("t a,g=".to_string(), "v a,l=\\".to_string());
    point.set_tag("".to_string(), "skipped".to_string());
    point.set_tag("e".to_string(), "".to_string());
    point.set_string_field("f 1,=".to_string(), "s".to_string());
    point.set_boolean_field("b".to_string(), false);
    point.set_timestamp(5);
    assert_eq!(
        point.to_line_protocol(None, None).unwrap(),
        "m=1\\,\\ x,e=,t\\ a\\,g\\==v\\ a\\,l\\=\\\\ b=F,f\\ 1\\,\\==\"s\" 5"
    );
}

#[test]
fn escape_and_unescape_round_trip() {
    let texts = ["", "plain", "a,b c=d", "back\\slash", "\\", "\\\\", "tr\\", "q\"q", "µs é"];
    for text in texts {
        let escaped = escape(text, COMMA_EQ_SPACE).to_string();
        assert_eq!(unescape(&escaped), text);
        let measurement = escape(text, COMMA_SPACE).to_string();
        assert_eq!(unescape(&measurement), text);
    }
    assert_eq!(escape("a,b c=d", COMMA_EQ_SPACE).to_string(), "a\\,b\\ c\\=d");
    assert_eq!(escape("a,b c=d", COMMA_SPACE).to_string(), "a\\,b\\ c=d");
    assert_eq!(unescape("a\\"), "a\\");
    assert_eq!(unescape("\\a\\\\b"), "a\\b");
}

#[test]
fn escaping_twice_doubles_the_backslashes() {
    let once = escape("a b", COMMA_SPACE).to_string();
    assert_eq!(once, "a\\ b");
    let twice = escape(&once, COMMA_SPACE).to_string();
    assert_eq!(twice, "a\\\\\\ b");
    let plain = escape("ab", COMMA_SPACE).to_string();
    assert_eq!(escape(&plain, COMMA_SPACE).to_string(), "ab");
}

#[test]
fn typed_getters_report_a_mismatch() {
    let mut values = PointValues::new("m".to_string());
    values.set_int_field("n".to_string(), -4);
    values.set_string_field("s".to_string(), "text".to_string());
    values.set_float_field("x".to_string(), 1.5_f64.to_string());
    values.set_uinteger_field("u".to_string(), 9);
    values.set_boolean_field("b".to_string(), true);
    assert_eq!(values.get_int_field("n".to_string()), Ok(Some(-4)));
    assert_eq!(values.get_string_field("s".to_string()), Ok(Some("text".to_string())));
    assert_eq!(values.get_float_field("x".to_string()), Ok(Some("1.5".to_string())));
    assert_eq!(values.get_uinteger_field("u".to_string()), Ok(Some(9)));
    assert_eq!(values.get_boolean_field("b".to_string()), Ok(Some(true)));
    assert_eq!(values.get_int_field("missing".to_string()), Ok(None));
    assert_eq!(
        values.get_int_field("s".to_string()),
        Err(FieldError::TypeMismatch {
            expected: PointFieldType::Integer,
            found: PointFieldType::String
        })
    );
    assert_eq!(
        values.get_boolean_field("x".to_string()),
        Err(FieldError::TypeMismatch {
            expected: PointFieldType::Boolean,
            found: PointFieldType::Float
        })
    );
    assert_eq!(values.get_field_type("u".to_string()), Some(PointFieldType::UInteger));
    assert_eq!(values.get_field_type("missing".to_string()), None);
    assert!(values.get_field("n".to_string(), None).unwrap().is_some());
    assert!(values.get_field("n".to_string(), Some(PointFieldType::Float)).is_err());
    assert_eq!(
        values.get_field_names(),
        vec!["b".to_string(), "n".to_string(), "s".to_string(), "u".to_string(), "x".to_string()]
    );
}

#[test]
fn set_field_checks_the_expected_type() {
    let mut values = PointValues::new("m".to_string());
    assert_eq!(
        values.set_field("a".to_string(), PointFieldValue::Boolean(true), None),
        Ok(())
    );
    assert_eq!(
        values.set_field(
            "a".to_string(),
            PointFieldValue::Integer(1),
            Some(PointFieldType::Integer)
        ),
        Ok(())
    );
    assert_eq!(values.get_field_type("a".to_string()), Some(PointFieldType::Integer));
    assert_eq!(
        values.set_field(
            "a".to_string(),
            PointFieldValue::Integer(2),
            Some(PointFieldType::UInteger)
        ),
        Err(FieldError::TypeMismatch {
            expected: PointFieldType::UInteger,
            found: PointFieldType::Integer
        })
    );
    assert_eq!(values.get_int_field("a".to_string()), Ok(Some(1)));
    assert_eq!(
        values.set_fields(vec![
            ("b".to_string(), PointFieldValue::UInteger(1)),
            ("c".to_string(), PointFieldValue::String("x".to_string())),
            ("b".to_string(), PointFieldValue::UInteger(2)),
        ]),
        Ok(())
    );
    assert_eq!(values.get_uinteger_field("b".to_string()), Ok(Some(2)));
    assert_eq!(values.remove_field("c".to_string()), Ok(()));
    assert_eq!(values.remove_field("c".to_string()), Err(FieldError::NotFound));
    assert_eq!(values.get_field_names(), vec!["a".to_string(), "b".to_string()]);
}

#[test]
fn tags_can_be_read_and_removed() {
    let mut point = Point::new("m".to_string());
    point.set_tag("k".to_string(), "v".to_string());
    point.set_tag("k".to_string(), "w".to_string());
    assert_eq!(point.get_tag("k".to_string()), Some("w".to_string()));
    assert_eq!(point.get_tag("other".to_string()), None);
    point.remove_tag("k".to_string());
    point.remove_tag("k".to_string());
    assert_eq!(point.get_tag("k".to_string()), None);
    assert!(point.tag_names().is_empty());
    point.set_measurement("".to_string());
    assert_eq!(point.measurement(), Some("m".to_string()));
    point.set_measurement("n".to_string());
    assert_eq!(point.measurement(), Some("n".to_string()));
    assert_eq!(point.timestamp(), None);
    point.set_timestamp(42);
    assert_eq!(point.timestamp(), Some(42));
}

#[test]
fn string_map_orders_as_strings_do() {
    let mut map: StringMap<u32> = StringMap::new();
    let names = ["b", "", "a", "ab", "B", "é", "z", "a", "µ", "aa"];
    for (i, name) in names.iter().enumerate() {
        map.insert(name.to_string(), i as u32);
    }
    let mut expected: Vec<String> = names.iter().map(|n| n.to_string()).collect();
    expected.sort();
    expected.dedup();
    assert_eq!(map.names_in_order(), expected);
    assert_eq!(map.len(), 9);
    assert_eq!(map.get("a"), Some(&7));
    assert_eq!(map.get("c"), None);
    assert!(map.contains_name(""));
    assert_eq!(map.remove("a"), Some(7));
    assert_eq!(map.remove("a"), None);
    assert_eq!(map.len(), 8);
    assert_eq!(map.name_at(0), "");
    assert_eq!(*map.value_at(0), 1);
}

#[test]
fn the_text_of_a_floating_point_number() {
    for text in [
        "51", "0.5", "-0", "-1.25", "1e21", "1E5", "2.5e-7", "-3e+10", "NaN", "inf", "-inf",
        "007", "0.0000001",
    ] {
        assert!(is_float(text), "{}", text);
    }
    for text in [
        "", "-", ".", "1.", ".5", "e5", "1e", "1e+", "1e-", "--1", "+1", "1.2.3", "1e5e5",
        "1e5.5", "abc", " 1", "1 ", "1,5", "nan", "Inf", "-NaN", "infinity", "1.e5", "1e.5",
        "١",
    ] {
        assert!(!is_float(text), "{}", text);
    }
    let numbers = [
        0.0_f64, -0.0, 51.0, 1.5, -2.25e-9, 1e300, f64::MAX, f64::MIN_POSITIVE, f64::NAN,
        f64::INFINITY, f64::NEG_INFINITY,
    ];
    for number in numbers {
        assert!(is_float(&number.to_string()));
        assert!(PointFieldValue::Float(number.to_string()).is_well_formed());
    }
    assert!(!PointFieldValue::Float("1 2".to_string()).is_well_formed());
    assert!(PointFieldValue::String("1 2".to_string()).is_well_formed());
}

#[test]
fn a_clone_holds_the_same() {
    let mut point = Point::new("m".to_string());
    point.set_tag("t".to_string(), "v".to_string());
    point.set_float_field("x".to_string(), 1.5_f64.to_string());
    point.set_string_field("s".to_string(), "text".to_string());
    point.set_timestamp(9);
    let copy = point.clone();
    assert_eq!(copy.to_line_protocol(None, None), point.to_line_protocol(None, None));
    assert_eq!(copy.to_line_protocol(None, None).unwrap(), "m,t=v s=\"text\",x=1.5 9");
    point.set_tag("t".to_string(), "w".to_string());
    assert_eq!(copy.get_tag("t".to_string()), Some("v".to_string()));
    let mut map: StringMap<String> = StringMap::new();
    map.insert("b".to_string(), "2".to_string());
    map.insert("a".to_string(), "1".to_string());
    let twin = map.clone();
    assert_eq!(twin.names_in_order(), map.names_in_order());
    assert_eq!(twin.get("a"), Some(&"1".to_string()));
    let value = PointFieldValue::Float("2.5".to_string());
    assert_eq!(field_to_line_protocol_string(&value.clone()), "2.5");
}
