use licor_core::convert::{bool_of_lowered, is_none_word};
use licor_core::{
    ColumnData, ConfigKind, ConfigStandard, DataType, Device6400, Device6800, DeviceKind,
    HeaderMap, LiCorData, LiCorParser, ParseError, RawLiCorFile, VariableDef, VariableDictionary,
};

fn sample(names: &str, units: &str, rows: &[&str]) -> String {
    let mut s = String::from(
        "[Header]\nConsole s/n\t68C-901292\nConsole ver\tBluestem v.2.1.13\nHead s/n\t68H-581292\n[Data]\n",
    );
    let n = names.split('\t').count();
    s.push_str(&vec!["Sys"; n].join("\t"));
    s.push('\n');
    s.push_str(names);
    s.push('\n');
    s.push_str(units);
    s.push('\n');
    for r in rows {
        s.push_str(r);
        s.push('\n');
    }
    s
}

fn empty_dictionary() -> VariableDictionary {
    VariableDictionary::new(Vec::new())
}

fn build(content: &str, dictionary: &VariableDictionary) -> Result<LiCorData, ParseError> {
    let raw = RawLiCorFile::parse(content)?;
    let (columns, variable_info) = LiCorData::build_typed_columns(&raw, dictionary)?;
    let metadata = Device6800::parse_metadata(&raw.header)?;
    Ok(LiCorData { metadata, columns, variable_info })
}

#[test]
fn end_to_end_scenario() {
    let dictionary = empty_dictionary();
    let content = sample("obs\tA", "\tumol/m2/s", &["1\t10.5"]);
    let parser = LiCorParser::new(DeviceKind::Li6800, ConfigKind::Standard, &dictionary);
    // the standard configuration needs more columns than these two
    assert!(matches!(
        parser.parse_content(&content),
        Err(ParseError::MissingRequiredVariable { .. })
    ));
    let data = build(&content, &dictionary).expect("parse succeeds");
    assert_eq!(data.metadata.device_serial, "68C-901292");
    assert_eq!(data.metadata.head_serial, Some("68H-581292".to_string()));
    assert_eq!(data.columns.len(), 2);
    assert_eq!(data.columns[0].name, "obs");
    assert_eq!(data.columns[1].name, "A");
    assert_eq!(data.variable_info[0].units, None);
    assert_eq!(data.variable_info[1].units, Some("umol/m2/s".to_string()));
    // "umol/m2/s" holds none of the unit markers, so an unknown "A" is text
    assert_eq!(data.variable_info[1].data_type, DataType::String);
    match &data.columns[1].data {
        ColumnData::Text(v) => assert_eq!(v, &vec![Some("10.5".to_string())]),
        other => panic!("unexpected column {:?}", other),
    }
}

#[test]
fn end_to_end_scenario_with_dictionary() {
    let dictionary = VariableDictionary::new(vec![
        VariableDef {
            internal_name: "obs".to_string(),
            display_label: "obs".to_string(),
            units: None,
            description: "Observation number".to_string(),
            data_type: DataType::Integer,
        },
        VariableDef::from_entry(
            "A".to_string(),
            "A".to_string(),
            "µmol m-2 s-1".to_string(),
            "Net assimilation".to_string(),
        ),
    ]);
    let content = sample("obs\tA", "\tumol/m2/s", &["1\t10.5"]);
    let data = build(&content, &dictionary).expect("parse succeeds");
    assert_eq!(data.metadata.device_serial, "68C-901292");
    assert_eq!(data.columns.len(), 2);
    assert_eq!(data.variable_info[0].data_type, DataType::Integer);
    assert_eq!(data.variable_info[1].data_type, DataType::Float);
    match &data.columns[0].data {
        ColumnData::Integer(v) => assert_eq!(v, &vec![Some(1)]),
        other => panic!("unexpected column {:?}", other),
    }
    match &data.columns[1].data {
        ColumnData::Float(v) => {
            let x: f64 = v[0].as_ref().unwrap().parse().unwrap();
            assert_eq!(x, 10.5);
        }
        other => panic!("unexpected column {:?}", other),
    }
    assert_eq!(data.variable_info[1].units, Some("µmol m-2 s-1".to_string()));
}

#[test]
fn repeated_names_get_suffixes() {
    let data = build(&sample("A\tA\tA", "\t\t", &["x\ty\tz"]), &empty_dictionary()).unwrap();
    let names: Vec<&str> = data.columns.iter().map(|c| c.name.as_str()).collect();
    assert_eq!(names, vec!["A", "A_1", "A_2"]);
}

#[test]
fn duplicate_pair_is_named_a_and_a_1() {
    let data = build(&sample("A\tA", "\t", &["1\t2"]), &empty_dictionary()).unwrap();
    let names: Vec<&str> = data.variable_info.iter().map(|c| c.internal_name.as_str()).collect();
    assert_eq!(names, vec!["A", "A_1"]);
    assert_eq!(data.variable_info[1].display_label, "A");
}

#[test]
fn suffix_skips_taken_names() {
    let data = build(&sample("A_1\tA\tA", "\t\t", &["1\t2\t3"]), &empty_dictionary()).unwrap();
    let names: Vec<&str> = data.columns.iter().map(|c| c.name.as_str()).collect();
    assert_eq!(names, vec!["A_1", "A", "A_2"]);
}

#[test]
fn missing_console_serial_is_reported() {
    let mut header = HeaderMap::new();
    header.insert("Console ver".to_string(), "Bluestem v.2.1.13".to_string());
    header.insert("Head s/n".to_string(), "68H-581292".to_string());
    match Device6800::validate_header(&header) {
        Err(ParseError::MissingRequiredHeader { field }) => assert_eq!(field, "Console s/n"),
        other => panic!("unexpected {:?}", other),
    }
    match Device6800::parse_metadata(&header) {
        Err(ParseError::MissingRequiredHeader { field }) => assert_eq!(field, "Console s/n"),
        other => panic!("unexpected {:?}", other),
    }
}

#[test]
fn foreign_firmware_is_rejected() {
    let mut header = HeaderMap::new();
    header.insert("Console s/n".to_string(), "1".to_string());
    header.insert("Console ver".to_string(), "OPEN 6.3".to_string());
    header.insert("Head s/n".to_string(), "2".to_string());
    match Device6800::validate_header(&header) {
        Err(ParseError::InvalidFileFormat { device }) => assert_eq!(device, "LI-6800"),
        other => panic!("unexpected {:?}", other),
    }
    let metadata = Device6800::parse_metadata(&header).unwrap();
    assert_eq!(metadata.head_version, None);
}

#[test]
fn unsupported_device_always_fails() {
    let header = HeaderMap::new();
    assert!(matches!(Device6400::validate_header(&header), Err(ParseError::InvalidFileFormat { .. })));
    assert!(matches!(Device6400::parse_metadata(&header), Err(ParseError::InvalidFileFormat { .. })));
}

#[test]
fn configuration_names_first_missing_variable() {
    let columns = vec!["obs".to_string(), "E".to_string()];
    match ConfigStandard::validate_columns(&columns) {
        Err(ParseError::MissingRequiredVariable { variable, config }) => {
            assert_eq!(variable, "A");
            assert_eq!(config, "standard");
        }
        other => panic!("unexpected {:?}", other),
    }
    let err = ConfigStandard::validate_columns(&columns).unwrap_err();
    assert_eq!(err.message(), "Missing required variable 'A' for config 'standard'");
}

#[test]
fn configuration_accepts_complete_columns() {
    let columns: Vec<String> = ConfigKind::Soil
        .expected_variables()
        .iter()
        .map(|s| s.to_string())
        .collect();
    assert!(ConfigKind::Soil.validate_columns(&columns).is_ok());
    assert_eq!(ConfigKind::Fluorometer.expected_variables().len(), 18);
}

#[test]
fn fallback_keeps_cell_text() {
    let dictionary = VariableDictionary::new(vec![VariableDef {
        internal_name: "n".to_string(),
        display_label: "n".to_string(),
        units: None,
        description: "count".to_string(),
        data_type: DataType::Integer,
    }]);
    let data = build(&sample("n", "", &["1", "two", "-", "NONE"]), &dictionary).unwrap();
    match &data.columns[0].data {
        ColumnData::Text(v) => assert_eq!(
            v,
            &vec![
                Some("1".to_string()),
                Some("two".to_string()),
                Some("-".to_string()),
                Some("NONE".to_string())
            ]
        ),
        other => panic!("unexpected column {:?}", other),
    }
}

#[test]
fn null_markers_become_nulls_in_typed_columns() {
    let data = build(&sample("T", "C", &["1.5", "-", "None", "2e3", "inf"]), &empty_dictionary()).unwrap();
    assert_eq!(data.variable_info[0].data_type, DataType::Float);
    match &data.columns[0].data {
        ColumnData::Float(v) => assert_eq!(
            v,
            &vec![
                Some("1.5".to_string()),
                None,
                None,
                Some("2e3".to_string()),
                Some("inf".to_string())
            ]
        ),
        other => panic!("unexpected column {:?}", other),
    }
}

#[test]
fn boolean_cells_parse_in_any_case() {
    let dictionary = VariableDictionary::new(vec![VariableDef {
        internal_name: "flag".to_string(),
        display_label: "flag".to_string(),
        units: None,
        description: "switch".to_string(),
        data_type: DataType::Boolean,
    }]);
    let data = build(&sample("flag", "", &["TRUE", "0", "On", "no", "-"]), &dictionary).unwrap();
    match &data.columns[0].data {
        ColumnData::Boolean(v) => assert_eq!(v, &vec![Some(true), Some(false), Some(true), Some(false), None]),
        other => panic!("unexpected column {:?}", other),
    }
    let data = build(&sample("flag", "", &["maybe"]), &dictionary).unwrap();
    assert!(matches!(data.columns[0].data, ColumnData::Text(_)));
}

#[test]
fn integer_cells_follow_i64_syntax() {
    let dictionary = VariableDictionary::new(vec![VariableDef {
        internal_name: "k".to_string(),
        display_label: "k".to_string(),
        units: None,
        description: "k".to_string(),
        data_type: DataType::Integer,
    }]);
    let data = build(&sample("k", "", &["+7", "-12", "0"]), &dictionary).unwrap();
    match &data.columns[0].data {
        ColumnData::Integer(v) => assert_eq!(v, &vec![Some(7), Some(-12), Some(0)]),
        other => panic!("unexpected column {:?}", other),
    }
    let data = build(&sample("k", "", &["9223372036854775808"]), &dictionary).unwrap();
    assert!(matches!(data.columns[0].data, ColumnData::Text(_)));
}

#[test]
fn float_syntax_matches_std() {
    let cases = ["1", "1.", ".5", "-2.5e-3", "+1E5", "NaN", "-Infinity", ".", "e5", "1e", "1.2.3", "0x10", "1_0"];
    for c in cases {
        let data = build(&sample("x", "kPa", &[c]), &empty_dictionary()).unwrap();
        let expect_float = c.parse::<f64>().is_ok();
        let is_float = matches!(data.columns[0].data, ColumnData::Float(_));
        assert_eq!(is_float, expect_float, "case {:?}", c);
    }
}

#[test]
fn unit_markers_decide_unknown_types() {
    assert_eq!(DataType::infer_from_units(""), DataType::String);
    assert_eq!(DataType::infer_from_units("mV"), DataType::Float);
    assert_eq!(DataType::infer_from_units("°C"), DataType::Float);
    assert_eq!(DataType::infer_from_units("mol m-2 s-1"), DataType::Float);
    assert_eq!(DataType::infer_from_units("%"), DataType::String);
    assert_eq!(DataType::infer_from_units("ppm"), DataType::String);
}

#[test]
fn unnamed_columns_are_dropped() {
    let data = build(&sample("a\t\tb", "\t\t", &["1\t2\t3"]), &empty_dictionary()).unwrap();
    assert_eq!(data.columns.len(), 2);
    assert_eq!(data.variable_info[0].description, "Unknown variable: a");
    let err = build(&sample("\t", "\t", &["1\t2"]), &empty_dictionary());
    assert!(matches!(err, Err(ParseError::EmptyDataSection)));
}

#[test]
fn raw_rows_are_padded_and_truncated() {
    let content = "[Header]\nk\tv\nno tab here\nk\tw\n[Data]\nc1\tc2\tc3\nx\ty\nu\n\n1\n1\t2\t3\t4\n";
    let raw = RawLiCorFile::parse(content).unwrap();
    assert_eq!(raw.header.get(&"k".to_string()), Some(&"w".to_string()));
    assert!(!raw.header.contains_key(&"no tab here".to_string()));
    assert_eq!(raw.column_categories.len(), 3);
    assert_eq!(raw.column_names, vec!["x", "y", ""]);
    assert_eq!(raw.units, vec!["u", "", ""]);
    assert_eq!(raw.data_rows, vec![vec!["1", "", ""], vec!["1", "2", "3"]]);
}

#[test]
fn trailing_tabs_are_stripped() {
    let content = "[Header]\n[Data]\na\t\tb\t\t\nn\nu\nv\t\t\n";
    let raw = RawLiCorFile::parse(content).unwrap();
    assert_eq!(raw.column_categories, vec!["a", "", "b"]);
    assert_eq!(raw.data_rows, vec![vec!["v", "", ""]]);
}

#[test]
fn sections_must_be_present_and_ordered() {
    let msg = |r: Result<RawLiCorFile, ParseError>| match r {
        Err(ParseError::InvalidHeaderFormat { message }) => message,
        _ => panic!("expected a header format error"),
    };
    assert_eq!(msg(RawLiCorFile::parse("[Data]\na\nb\nc\nd\n")), "Missing [Header] section");
    assert_eq!(msg(RawLiCorFile::parse("[Header]\na\tb\n")), "Missing [Data] section");
    assert_eq!(
        msg(RawLiCorFile::parse("[Data]\n[Header]\na\nb\nc\n")),
        "[Data] section must come after [Header] section"
    );
    assert!(matches!(RawLiCorFile::parse("  [Header]  \n [Data]\na\nb\n"), Err(ParseError::EmptyDataSection)));
    assert!(matches!(RawLiCorFile::parse("[Header]\n[Data]\na\nb\nc\n\n  \n"), Err(ParseError::EmptyDataSection)));
}

#[test]
fn parsing_twice_gives_the_same_table() {
    let dictionary = empty_dictionary();
    let content = sample("obs\tT\tflag", "\tC\t", &["1\t20.5\tx", "2\t-\ty"]);
    let a = build(&content, &dictionary).unwrap();
    let b = build(&content, &dictionary).unwrap();
    assert_eq!(format!("{:?}", a), format!("{:?}", b));
}

#[test]
fn full_parse_of_a_standard_file() {
    let dictionary = empty_dictionary();
    let names = "obs\tA\tE\tCa\tCi\tgsw\tgbw\tTleaf\tTair\tFlow\tPa";
    let units = "\tµmol m-2 s-1\tmol m-2 s-1\tµmol mol-1\tµmol mol-1\tmol m-2 s-1\tmol m-2 s-1\t°C\t°C\tµmol s-1\tkPa";
    let content = sample(names, units, &["1\t10.5\t0.002\t400\t300\t0.2\t3\t25\t24\t500\t97.5"]);
    let parser = LiCorParser::new(DeviceKind::Li6800, ConfigKind::Standard, &dictionary);
    let data = parser.parse_content(&content).unwrap();
    assert_eq!(data.columns.len(), 11);
    assert_eq!(data.variable_info[0].units, None);
    assert_eq!(data.variable_info[0].data_type, DataType::String);
    assert_eq!(data.variable_info[1].units, Some("µmol m-2 s-1".to_string()));
    assert_eq!(data.variable_info[1].data_type, DataType::Float);
    assert_eq!(data.variable_info[10].units, Some("kPa".to_string()));
    assert_eq!(data.variable_info[10].data_type, DataType::Float);
    let other = LiCorParser::new(DeviceKind::Li6400, ConfigKind::Standard, &dictionary);
    assert!(matches!(other.parse_content(&content), Err(ParseError::InvalidFileFormat { .. })));
}

#[test]
fn leading_empty_fields_are_kept() {
    let content = "[Header]\nConsole s/n\t68C-901292\n[Data]\nSys\tGasEx\nobs\tA\n\tumol/m2/s\n1\t10.5\n\t7\n";
    let raw = RawLiCorFile::parse(content).unwrap();
    assert_eq!(raw.units, vec!["", "umol/m2/s"]);
    assert_eq!(raw.column_names, vec!["obs", "A"]);
    assert_eq!(raw.data_rows, vec![vec!["1", "10.5"], vec!["", "7"]]);
}

#[test]
fn header_pairs_may_have_an_empty_side() {
    let content = "[Header]\nkey\t\n\tvalue\n  padded key \t padded value \n[Data]\na\nb\nc\n1\n";
    let raw = RawLiCorFile::parse(content).unwrap();
    assert_eq!(raw.header.get(&"key".to_string()), Some(&"".to_string()));
    assert_eq!(raw.header.get(&"".to_string()), Some(&"value".to_string()));
    assert_eq!(raw.header.get(&"padded key".to_string()), Some(&"padded value".to_string()));
}

#[test]
fn markers_and_blank_lines_are_found_after_trimming() {
    let content = " [Header]\t\r\nk\tv\r\n\t[Data] \r\nc\r\nn\r\nu\r\n \t \r\n1\r\n";
    let raw = RawLiCorFile::parse(content).unwrap();
    assert_eq!(raw.header.get(&"k".to_string()), Some(&"v".to_string()));
    assert_eq!(raw.column_names, vec!["n"]);
    assert_eq!(raw.data_rows, vec![vec!["1"]]);
}

#[test]
fn text_columns_null_the_null_markers() {
    let dictionary = VariableDictionary::new(vec![VariableDef {
        internal_name: "note".to_string(),
        display_label: "note".to_string(),
        units: None,
        description: "remark".to_string(),
        data_type: DataType::String,
    }]);
    let data = build(&sample("k\tnote", "\t", &["1\t-", "2\tNone", "3\tleaf", "4"]), &dictionary).unwrap();
    match &data.columns[1].data {
        ColumnData::Text(v) => assert_eq!(v, &vec![None, None, Some("leaf".to_string()), None]),
        other => panic!("unexpected column {:?}", other),
    }
}

#[test]
fn lowered_words_name_truth_values() {
    assert_eq!(bool_of_lowered(&"true".to_string()), Some(true));
    assert_eq!(bool_of_lowered(&"yes".to_string()), Some(true));
    assert_eq!(bool_of_lowered(&"off".to_string()), Some(false));
    assert_eq!(bool_of_lowered(&"0".to_string()), Some(false));
    assert_eq!(bool_of_lowered(&"TRUE".to_string()), None);
    assert_eq!(bool_of_lowered(&"maybe".to_string()), None);
    assert!(is_none_word(&"none".to_string()));
    assert!(!is_none_word(&"None".to_string()));
    assert!(!is_none_word(&"nil".to_string()));
}
