use openadr_vtn::program::{
    DateTime, Duration, IntervalPeriod, NewProgram, Program, ProgramId, ProgramName,
    ProgramObjectType,
};

fn res_tou_program() -> Program {
    Program {
        id: ProgramId("object-999".into()),
        created_date_time: DateTime("2023-06-15T09:30:00Z".into()),
        modification_date_time: DateTime("2023-06-15T09:30:00Z".into()),
        content: NewProgram {
            object_type: Some(ProgramObjectType::Program),
            program_name: ProgramName::new("ResTOU".into()),
            program_long_name: Some("Residential Time of Use-A".into()),
            retailer_name: Some("ACME".into()),
            retailer_long_name: Some("ACME Electric Inc.".into()),
            program_type: Some("PRICING_TARIFF".into()),
            country: Some("US".into()),
            principal_subdivision: Some("CO".into()),
            time_zone_offset: Some(Duration("PT1H".into())),
            interval_period: Some(IntervalPeriod {
                start: DateTime("2023-06-15T09:30:00Z".into()),
                duration: Some(Duration("PT1H".into())),
                randomize_start: Some(Duration("PT1H".into())),
            }),
            program_descriptions: None,
            binding_events: Some(false),
            local_price: Some(false),
            payload_descriptors: None,
            targets: None,
        },
    }
}

#[test]
fn full_program_value() {
    let program = res_tou_program();
    assert_eq!(program.id, ProgramId("object-999".into()));
    assert_eq!(program.created_date_time, program.modification_date_time);
    assert_eq!(program.content.program_name, ProgramName::new("ResTOU".into()));
    assert_eq!(program.content.retailer_long_name, Some("ACME Electric Inc.".into()));
    assert_eq!(program, program.clone());
}

#[test]
fn minimal_program_content() {
    let minimal = NewProgram {
        object_type: None,
        program_name: ProgramName::new("test".to_string()),
        program_long_name: None,
        retailer_name: None,
        retailer_long_name: None,
        program_type: None,
        country: None,
        principal_subdivision: None,
        time_zone_offset: None,
        interval_period: None,
        program_descriptions: None,
        binding_events: None,
        local_price: None,
        payload_descriptors: None,
        targets: None,
    };
    assert_eq!(minimal.program_name, ProgramName::new("test".to_string()));
    assert!(minimal.object_type.is_none());
    assert_eq!(minimal, minimal.clone());
}
