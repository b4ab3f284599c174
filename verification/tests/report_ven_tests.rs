use openadr_vtn::error::AppError;
use openadr_vtn::identity::{Identity, Role};
use openadr_vtn::pagination::Pagination;
use openadr_vtn::program::ProgramId;
use openadr_vtn::report::{EventId, QueryParams, ReportContent, ReportId, ReportStore};
use openadr_vtn::ven::{VenContent, VenId, VenStore};

fn manager() -> Identity {
    Identity::new(vec![Role::VenManager])
}

fn business() -> Identity {
    Identity::new(vec![Role::BusinessUser])
}

fn ven_user(id: &str) -> Identity {
    Identity::new(vec![Role::VenUser(VenId(id.to_string()))])
}

fn report_content(program: &str, event: &str, client: &str) -> ReportContent {
    ReportContent {
        program_id: ProgramId(program.to_string()),
        event_id: EventId(event.to_string()),
        client_name: client.to_string(),
        report_name: None,
    }
}

fn report_query(
    program: Option<&str>,
    event: Option<&str>,
    client: Option<&str>,
    skip: Option<i64>,
    limit: Option<i64>,
) -> QueryParams {
    QueryParams::new(
        program.map(|p| ProgramId(p.to_string())),
        event.map(|e| EventId(e.to_string())),
        client.map(|c| c.to_string()),
        skip,
        limit,
    )
    .unwrap()
}

#[test]
fn report_create_requires_ven_role() {
    let mut store = ReportStore::new();
    let denied = store.create(report_content("program-1", "event-1", "client-1"), &business());
    assert!(matches!(denied, Err(AppError::Forbidden(_))));

    let created = store
        .create(report_content("program-1", "event-1", "client-1"), &ven_user("ven-1"))
        .unwrap();
    assert_eq!(created.content.client_name, "client-1");
    assert_eq!(created.created_date_time, created.modification_date_time);
}

#[test]
fn report_read_is_open_to_any_caller() {
    let mut store = ReportStore::new();
    let created = store
        .create(report_content("program-1", "event-1", "client-1"), &ven_user("ven-1"))
        .unwrap();
    let nobody = Identity::new(vec![]);
    let got = store.retrieve(&created.id, &nobody).unwrap();
    assert_eq!(got.id.0, created.id.0);
    let missing = store.retrieve(&ReportId("report-missing".to_string()), &nobody);
    assert!(matches!(missing, Err(AppError::NotFound)));
}

#[test]
fn report_filters_and_limit_zero() {
    let mut store = ReportStore::new();
    let ven = ven_user("ven-1");
    store.create(report_content("program-1", "event-1", "client-1"), &ven).unwrap();
    store.create(report_content("program-1", "event-2", "client-2"), &ven).unwrap();
    store.create(report_content("program-2", "event-2", "client-1"), &ven).unwrap();
    let reader = business();

    let by_program = store
        .retrieve_all(&report_query(Some("program-1"), None, None, None, None), &reader)
        .unwrap();
    assert_eq!(by_program.len(), 2);

    let by_event = store
        .retrieve_all(&report_query(None, Some("event-2"), None, None, None), &reader)
        .unwrap();
    assert_eq!(by_event.len(), 2);

    let by_client = store
        .retrieve_all(&report_query(None, None, Some("client-1"), None, None), &reader)
        .unwrap();
    assert_eq!(by_client.len(), 2);

    let narrowed = store
        .retrieve_all(
            &report_query(Some("program-1"), Some("event-2"), Some("client-2"), None, None),
            &reader,
        )
        .unwrap();
    assert_eq!(narrowed.len(), 1);

    // a limit of 0 is accepted and returns no records
    let none = store
        .retrieve_all(&report_query(None, None, None, None, Some(0)), &reader)
        .unwrap();
    assert_eq!(none.len(), 0);
}

#[test]
fn report_update_and_business_delete() {
    let mut store = ReportStore::new();
    let ven = ven_user("ven-1");
    let created = store
        .create(report_content("program-1", "event-1", "client-1"), &ven)
        .unwrap();

    let updated = store
        .update(&created.id, report_content("program-1", "event-1", "client-9"), &ven)
        .unwrap();
    assert_eq!(updated.content.client_name, "client-9");
    assert!(updated.modification_date_time.0 >= updated.created_date_time.0);

    // deletion is a business operation, not a VEN one
    let denied = store.delete(&created.id, &ven);
    assert!(matches!(denied, Err(AppError::Forbidden(_))));

    let deleted = store.delete(&created.id, &business()).unwrap();
    assert_eq!(deleted.content.client_name, "client-9");

    let gone = store.retrieve(&created.id, &business());
    assert!(matches!(gone, Err(AppError::NotFound)));
}

#[test]
fn report_client_name_validation() {
    let mut store = ReportStore::new();
    let result = store.create(report_content("program-1", "event-1", ""), &ven_user("ven-1"));
    match result {
        Err(AppError::ValidationFailed(detail)) => {
            assert!(detail.contains("outside of allowed range 1..=128"));
        }
        _ => panic!("expected a validation failure"),
    }
}

#[test]
fn ven_store_lifecycle() {
    let mut store = VenStore::new();
    let admin = manager();

    let denied = store.create(VenContent { ven_name: "ven-1-name".to_string() }, &business());
    assert!(matches!(denied, Err(AppError::Forbidden(_))));

    let ven1 = store.create(VenContent { ven_name: "ven-1-name".to_string() }, &admin).unwrap();
    let ven2 = store.create(VenContent { ven_name: "ven-2-name".to_string() }, &admin).unwrap();
    assert_ne!(ven1.id.0, ven2.id.0);

    // the manager sees both; a VEN user sees only its own record
    let page = Pagination::new(None, None).unwrap();
    let all = store.retrieve_all(&page, &admin).unwrap();
    assert_eq!(all.len(), 2);
    let own_user = Identity::new(vec![Role::VenUser(ven1.id.clone())]);
    let mine = store.retrieve_all(&page, &own_user).unwrap();
    assert_eq!(mine.len(), 1);
    assert_eq!(mine[0].id.0, ven1.id.0);

    let got = store.retrieve(&ven1.id, &own_user).unwrap();
    assert_eq!(got.content.ven_name, "ven-1-name");
    let denied = store.retrieve(&ven2.id, &own_user);
    assert!(matches!(denied, Err(AppError::Forbidden(_))));
    let missing = store.retrieve(&VenId("ven-missing".to_string()), &admin);
    assert!(matches!(missing, Err(AppError::NotFound)));

    let updated = store
        .update(&ven1.id, VenContent { ven_name: "ven-1-renamed".to_string() }, &own_user)
        .unwrap();
    assert_eq!(updated.content.ven_name, "ven-1-renamed");

    let bad = store.update(&ven1.id, VenContent { ven_name: "".to_string() }, &admin);
    assert!(matches!(bad, Err(AppError::ValidationFailed(_))));

    let deleted = store.delete(&ven1.id, &admin).unwrap();
    assert_eq!(deleted.id.0, ven1.id.0);
    let gone = store.retrieve(&ven1.id, &admin);
    assert!(matches!(gone, Err(AppError::NotFound)));
}
