use licor_core::{
    ConfigAquatic, ConfigFluorometer, ConfigKind, ConfigSoil, ConfigStandard, DataType, Device6800,
    DeviceKind, HeaderMap, LiCorParser, ParseError, VariableDef, VariableDictionary,
};

#[test]
fn test_device_trait() {
    let mut header = HeaderMap::new();
    header.insert("Console s/n".to_string(), "68C-901292".to_string());
    header.insert("Console ver".to_string(), "Bluestem v.2.1.13".to_string());
    header.insert("Head s/n".to_string(), "68H-581292".to_string());

    // Should validate successfully
    assert!(Device6800::validate_header(&header).is_ok());

    // Should parse metadata successfully
    let metadata = Device6800::parse_metadata(&header).unwrap();
    assert_eq!(metadata.device_serial, "68C-901292");
    assert_eq!(metadata.console_version, "Bluestem v.2.1.13");
}

#[test]
fn test_config_trait() {
    let standard_vars = ConfigStandard::expected_variables();
    assert!(standard_vars.contains(&"A"));
    assert!(standard_vars.contains(&"E"));

    let fluor_vars = ConfigFluorometer::expected_variables();
    assert!(fluor_vars.contains(&"A"));
    assert!(fluor_vars.contains(&"PhiPS2"));

    // Test validation with missing variables
    let incomplete_cols = vec!["obs".to_string(), "A".to_string()];
    assert!(ConfigStandard::validate_columns(&incomplete_cols).is_err());
}

#[test]
fn test_type_safety() {
    let dictionary = VariableDictionary::new(Vec::new());
    let _parser = LiCorParser::new(DeviceKind::Li6800, ConfigKind::Fluorometer, &dictionary);
    let _standard = LiCorParser::new(DeviceKind::Li6800, ConfigKind::Standard, &dictionary);
    let _aquatic = LiCorParser::new(DeviceKind::Li6800, ConfigKind::Aquatic, &dictionary);
    let _soil = LiCorParser::new(DeviceKind::Li6800, ConfigKind::Soil, &dictionary);
}

#[test]
fn dictionary_entries_take_their_type_from_units() {
    let defs = vec![
        VariableDef::from_entry(
            "Aperture".to_string(),
            "Aperture".to_string(),
            "cm2".to_string(),
            "Leaf area inside the aperture".to_string(),
        ),
        VariableDef::from_entry("obs".to_string(), "obs".to_string(), "".to_string(), "Observation".to_string()),
    ];
    let variables = VariableDictionary::new(defs);
    assert!(variables.len() > 0, "entries should be kept");
    let aperture = variables.lookup(&"Aperture".to_string()).expect("Should find Aperture variable");
    assert_eq!(aperture.units, Some("cm2".to_string()));
    assert_eq!(aperture.data_type, DataType::Float);
    assert!(matches!(ConfigAquatic::validate_columns(&vec![]), Err(_)));
    assert!(matches!(ConfigSoil::validate_columns(&vec![]), Err(_)));
}

#[test]
fn test_variable_definitions_static() {
    let mut defs = vec![VariableDef::from_entry(
        "Aperture".to_string(),
        "Aperture".to_string(),
        "cm2".to_string(),
        "Chamber aperture area".to_string(),
    )];
    for i in 0..150 {
        let units = if i % 2 == 0 { "kPa" } else { "" };
        defs.push(VariableDef::from_entry(
            format!("var{}", i),
            format!("Variable {}", i),
            units.to_string(),
            format!("Entry {}", i),
        ));
    }
    let variables = VariableDictionary::new(defs);
    assert!(variables.len() > 0, "Static variables should be populated");

    // Test that we have a reasonable number of variables
    assert!(variables.len() > 100, "Should have many variables");
    assert!(variables.is_known_variable(&"Aperture".to_string()));
    assert!(!variables.is_known_variable(&"Nothing".to_string()));
    assert_eq!(variables.lookup(&"var1".to_string()).unwrap().units, None);
}

#[test]
fn error_messages_read_as_sentences() {
    let e = ParseError::MalformedDataSection { expected: 12, found: 3 };
    assert_eq!(e.message(), "Malformed data section: expected 12 columns, found 3");
    let e = ParseError::MissingRequiredHeader { field: "Head s/n".to_string() };
    assert_eq!(e.message(), "Missing required header field: Head s/n");
    assert_eq!(ParseError::EmptyDataSection.message(), "Empty or invalid data section");
}
