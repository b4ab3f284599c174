use openadr_vtn::error::AppError;
use openadr_vtn::pagination::{get_50, Pagination};
use openadr_vtn::program;
use openadr_vtn::resource;
use openadr_vtn::resource::validate_target_type_value_pair;
use openadr_vtn::target::TargetLabel;

#[test]
fn default_limit_is_50() {
    assert_eq!(get_50(), 50);
}

#[test]
fn resource_query_defaults() {
    let q = resource::QueryParams::new(None, None, None, None).unwrap();
    assert_eq!(q.skip, 0);
    assert_eq!(q.limit, 50);
    assert!(q.target_type.is_none());
    assert!(q.target_values.is_none());
}

#[test]
fn resource_query_rejects_bad_ranges() {
    assert!(matches!(
        resource::QueryParams::new(None, None, Some(-1), None),
        Err(AppError::ValidationFailed(_))
    ));
    assert!(matches!(
        resource::QueryParams::new(None, None, None, Some(0)),
        Err(AppError::ValidationFailed(_))
    ));
    assert!(matches!(
        resource::QueryParams::new(None, None, None, Some(51)),
        Err(AppError::ValidationFailed(_))
    ));
    assert!(resource::QueryParams::new(None, None, Some(0), Some(1)).is_ok());
    assert!(resource::QueryParams::new(None, None, None, Some(50)).is_ok());
}

#[test]
fn resource_query_target_pair_must_agree() {
    let lonely_type = resource::QueryParams::new(Some(TargetLabel::Group), None, None, None);
    match lonely_type {
        Err(AppError::ValidationFailed(m)) => {
            assert!(m.contains("targetType and targetValues"));
        }
        _ => panic!("expected a validation failure"),
    }
    let lonely_values =
        resource::QueryParams::new(None, Some(vec!["group-1".to_string()]), None, None);
    assert!(matches!(lonely_values, Err(AppError::ValidationFailed(_))));
    let both = resource::QueryParams::new(
        Some(TargetLabel::Group),
        Some(vec!["group-1".to_string()]),
        None,
        None,
    );
    assert!(both.is_ok());
}

#[test]
fn validate_target_pair_directly() {
    let q = resource::QueryParams {
        target_type: Some(TargetLabel::VenName),
        target_values: None,
        skip: 0,
        limit: 50,
    };
    assert!(matches!(
        validate_target_type_value_pair(&q),
        Err(AppError::ValidationFailed(_))
    ));
    let q = resource::QueryParams {
        target_type: None,
        target_values: None,
        skip: 0,
        limit: 50,
    };
    assert!(validate_target_type_value_pair(&q).is_ok());
}

#[test]
fn program_query_target_pair_must_agree() {
    let q = program::QueryParams {
        target_type: Some(TargetLabel::ProgramName),
        target_values: None,
        skip: 0,
        limit: 50,
    };
    assert!(matches!(q.validate(), Err(AppError::ValidationFailed(_))));
    let q = program::QueryParams {
        target_type: Some(TargetLabel::ProgramName),
        target_values: Some(vec!["ResTOU".to_string()]),
        skip: 0,
        limit: 50,
    };
    assert!(q.validate().is_ok());
    let q = program::QueryParams {
        target_type: None,
        target_values: None,
        skip: 0,
        limit: 51,
    };
    assert!(matches!(q.validate(), Err(AppError::ValidationFailed(_))));
}

#[test]
fn pagination_defaults_and_ranges() {
    let p = Pagination::new(None, None).unwrap();
    assert_eq!(p.skip, 0);
    assert_eq!(p.limit, 50);
    assert!(matches!(Pagination::new(Some(-3), None), Err(AppError::ValidationFailed(_))));
    assert!(matches!(Pagination::new(None, Some(0)), Err(AppError::ValidationFailed(_))));
    assert!(matches!(Pagination::new(None, Some(51)), Err(AppError::ValidationFailed(_))));
}

#[test]
fn method_not_allowed_screen_decision() {
    let hit = openadr_vtn::error::method_not_allowed_screen(405);
    assert!(matches!(hit, Some(AppError::MethodNotAllowed)));
    assert!(openadr_vtn::error::method_not_allowed_screen(200).is_none());
    assert!(openadr_vtn::error::method_not_allowed_screen(404).is_none());
}
