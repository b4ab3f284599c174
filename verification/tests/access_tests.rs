use openadr_vtn::data_source::InMemoryStore;
use openadr_vtn::error::AppError;
use openadr_vtn::identity::{Identity, Role, RoleKind};
use openadr_vtn::permission::has_write_permission;
use openadr_vtn::resource::{QueryParams, ResourceContent, ResourceId};
use openadr_vtn::state::AppState;
use openadr_vtn::target::{TargetEntry, TargetLabel};
use openadr_vtn::ven::{VenContent, VenId};

fn manager() -> Identity {
    Identity::new(vec![Role::VenManager])
}

fn business() -> Identity {
    Identity::new(vec![Role::BusinessUser])
}

fn ven_user(id: &VenId) -> Identity {
    Identity::new(vec![Role::VenUser(id.clone())])
}

fn content(name: &str) -> ResourceContent {
    ResourceContent {
        object_type: None,
        resource_name: name.to_string(),
        attributes: None,
        targets: None,
    }
}

/// Seeds a state with two VENs, two resources under the first and three
/// under the second, mirroring a typical fixture.
fn seeded() -> (AppState, VenId, VenId, Vec<ResourceId>, Vec<ResourceId>) {
    let mut state = AppState::new(InMemoryStore::new());
    let admin = manager();
    let ven1 = state
        .storage
        .vens
        .create(VenContent { ven_name: "ven-1-name".to_string() }, &admin)
        .unwrap()
        .id;
    let ven2 = state
        .storage
        .vens
        .create(VenContent { ven_name: "ven-2-name".to_string() }, &admin)
        .unwrap()
        .id;
    let mut ids1 = Vec::new();
    let mut ids2 = Vec::new();
    for name in ["resource-1-name", "resource-2-name"] {
        let r = state
            .storage
            .resources
            .create(content(name), ven1.clone(), &admin, &state.storage.vens)
            .unwrap();
        ids1.push(r.id);
    }
    for name in ["resource-3-name", "resource-4-name", "resource-5-name"] {
        let r = state
            .storage
            .resources
            .create(content(name), ven2.clone(), &admin, &state.storage.vens)
            .unwrap();
        ids2.push(r.id);
    }
    (state, ven1, ven2, ids1, ids2)
}

fn query(
    target_type: Option<TargetLabel>,
    target_values: Option<Vec<String>>,
    skip: Option<i64>,
    limit: Option<i64>,
) -> QueryParams {
    QueryParams::new(target_type, target_values, skip, limit).unwrap()
}

#[test]
fn test_get_all() {
    let (state, ven1, ven2, _, _) = seeded();
    let admin = manager();

    let resources = state
        .storage
        .resources
        .retrieve_all(&ven1, &query(None, None, None, None), &admin)
        .unwrap();
    assert_eq!(resources.len(), 2);

    let resources = state
        .storage
        .resources
        .retrieve_all(&ven2, &query(None, None, None, None), &admin)
        .unwrap();
    assert_eq!(resources.len(), 3);

    // same listing as a VEN user scoped to the first VEN
    let user = ven_user(&ven1);
    let resources = state
        .storage
        .resources
        .retrieve_all(&ven1, &query(None, None, None, None), &user)
        .unwrap();
    assert_eq!(resources.len(), 2);

    let denied = state
        .storage
        .resources
        .retrieve_all(&ven2, &query(None, None, None, None), &user);
    assert!(matches!(denied, Err(AppError::Forbidden(_))));
}

#[test]
fn get_all_filtered() {
    let (state, ven1, _, _, _) = seeded();
    let admin = manager();

    let resources = state
        .storage
        .resources
        .retrieve_all(&ven1, &query(None, None, Some(1), None), &admin)
        .unwrap();
    assert_eq!(resources.len(), 1);

    let resources = state
        .storage
        .resources
        .retrieve_all(&ven1, &query(None, None, None, Some(1)), &admin)
        .unwrap();
    assert_eq!(resources.len(), 1);

    let resources = state
        .storage
        .resources
        .retrieve_all(
            &ven1,
            &query(
                Some(TargetLabel::ResourceName),
                Some(vec!["resource-1-name".to_string()]),
                None,
                None,
            ),
            &admin,
        )
        .unwrap();
    assert_eq!(resources.len(), 1);

    // resource-3-name belongs to the other VEN: no match under this one
    let resources = state
        .storage
        .resources
        .retrieve_all(
            &ven1,
            &query(
                Some(TargetLabel::ResourceName),
                Some(vec!["resource-3-name".to_string()]),
                None,
                None,
            ),
            &admin,
        )
        .unwrap();
    assert_eq!(resources.len(), 0);
}

#[test]
fn get_all_filtered_by_group_target() {
    let mut state = AppState::new(InMemoryStore::new());
    let admin = manager();
    let ven = state
        .storage
        .vens
        .create(VenContent { ven_name: "ven-1-name".to_string() }, &admin)
        .unwrap()
        .id;
    let mut grouped = content("grouped-resource");
    grouped.targets = Some(vec![TargetEntry {
        label: TargetLabel::Group,
        values: vec!["group-1".to_string()],
    }]);
    state
        .storage
        .resources
        .create(grouped, ven.clone(), &admin, &state.storage.vens)
        .unwrap();
    state
        .storage
        .resources
        .create(content("plain-resource"), ven.clone(), &admin, &state.storage.vens)
        .unwrap();

    let hits = state
        .storage
        .resources
        .retrieve_all(
            &ven,
            &query(Some(TargetLabel::Group), Some(vec!["group-1".to_string()]), None, None),
            &admin,
        )
        .unwrap();
    assert_eq!(hits.len(), 1);
    assert_eq!(hits[0].content.resource_name, "grouped-resource");

    let misses = state
        .storage
        .resources
        .retrieve_all(
            &ven,
            &query(Some(TargetLabel::Group), Some(vec!["group-2".to_string()]), None, None),
            &admin,
        )
        .unwrap();
    assert_eq!(misses.len(), 0);
}

#[test]
fn get_single_resource() {
    let (state, ven1, ven2, ids1, ids2) = seeded();
    let admin = manager();

    let resource = state.storage.resources.retrieve(&ids1[0], ven1.clone(), &admin).unwrap();
    assert_eq!(resource.id.0, ids1[0].0);
    assert_eq!(resource.ven_id.0, ven1.0);

    let user = ven_user(&ven1);
    let resource = state.storage.resources.retrieve(&ids1[0], ven1.clone(), &user).unwrap();
    assert_eq!(resource.id.0, ids1[0].0);

    // a resource of the other VEN is absent under this VEN's path
    let missing = state.storage.resources.retrieve(&ids2[0], ven1.clone(), &user);
    assert!(matches!(missing, Err(AppError::NotFound)));

    // and under its own VEN's path, this caller is not authorized
    let denied = state.storage.resources.retrieve(&ids2[0], ven2.clone(), &user);
    assert!(matches!(denied, Err(AppError::Forbidden(_))));
}

#[test]
fn add_edit_delete() {
    let mut state = AppState::new(InMemoryStore::new());
    let admin = manager();
    let ven = state
        .storage
        .vens
        .create(VenContent { ven_name: "ven-1-name".to_string() }, &admin)
        .unwrap()
        .id;

    let resource = state
        .storage
        .resources
        .create(content("new-resource"), ven.clone(), &admin, &state.storage.vens)
        .unwrap();
    assert_eq!(resource.content.resource_name, "new-resource");
    assert_eq!(resource.created_date_time, resource.modification_date_time);

    let resource_id = resource.id.clone();

    let updated = state
        .storage
        .resources
        .update(&resource_id, ven.clone(), content("updated-resource"), &admin)
        .unwrap();
    assert_eq!(updated.content.resource_name, "updated-resource");
    assert!(updated.modification_date_time.0 >= updated.created_date_time.0);

    let fetched = state.storage.resources.retrieve(&resource_id, ven.clone(), &admin).unwrap();
    assert_eq!(fetched.content.resource_name, "updated-resource");

    let deleted = state.storage.resources.delete(&resource_id, ven.clone(), &admin).unwrap();
    assert_eq!(deleted.content.resource_name, "updated-resource");

    let gone = state.storage.resources.retrieve(&resource_id, ven.clone(), &admin);
    assert!(matches!(gone, Err(AppError::NotFound)));
}

#[test]
fn name_constraint_validation() {
    let mut state = AppState::new(InMemoryStore::new());
    let admin = manager();
    let ven = state
        .storage
        .vens
        .create(VenContent { ven_name: "ven-1-name".to_string() }, &admin)
        .unwrap()
        .id;

    let long_name: String = std::iter::repeat('a').take(150).collect();
    for name in ["", long_name.as_str()] {
        let result = state
            .storage
            .resources
            .create(content(name), ven.clone(), &admin, &state.storage.vens);
        match result {
            Err(AppError::ValidationFailed(detail)) => {
                assert!(detail.contains("outside of allowed range 1..=128"));
            }
            _ => panic!("expected a validation failure"),
        }
    }
}

#[test]
fn ven_scoped_visibility_scenario() {
    // identity holds only a VEN role for the first VEN; the store holds
    // two resources it owns and three owned by another VEN
    let (state, ven1, ven2, _, ids2) = seeded();
    let user = ven_user(&ven1);

    let visible = state
        .storage
        .resources
        .retrieve_all(&ven1, &query(None, None, None, None), &user)
        .unwrap();
    assert_eq!(visible.len(), 2);

    let denied = state.storage.resources.retrieve(&ids2[0], ven2.clone(), &user);
    assert!(matches!(denied, Err(AppError::Forbidden(_))));

    let absent = state
        .storage
        .resources
        .retrieve(&ResourceId("resource-does-not-exist".to_string()), ven1.clone(), &user);
    assert!(matches!(absent, Err(AppError::NotFound)));
}

#[test]
fn create_then_get_round_trip() {
    let mut state = AppState::new(InMemoryStore::new());
    let admin = manager();
    let ven = state
        .storage
        .vens
        .create(VenContent { ven_name: "ven-1-name".to_string() }, &admin)
        .unwrap()
        .id;

    let mut payload = content("round-trip-resource");
    payload.attributes = Some(vec![TargetEntry {
        label: TargetLabel::GroupName,
        values: vec!["group-a".to_string(), "group-b".to_string()],
    }]);
    let created = state
        .storage
        .resources
        .create(payload, ven.clone(), &admin, &state.storage.vens)
        .unwrap();

    for _ in 0..2 {
        let got = state.storage.resources.retrieve(&created.id, ven.clone(), &admin).unwrap();
        assert_eq!(got.id.0, created.id.0);
        assert_eq!(got.content.resource_name, "round-trip-resource");
        let attrs = got.content.attributes.unwrap();
        assert_eq!(attrs.len(), 1);
        assert_eq!(attrs[0].values, vec!["group-a".to_string(), "group-b".to_string()]);
        assert_eq!(got.created_date_time, created.created_date_time);
        assert_eq!(got.modification_date_time, created.modification_date_time);
    }
}

#[test]
fn create_rejected_for_missing_ven() {
    let mut state = AppState::new(InMemoryStore::new());
    let admin = manager();
    let result = state.storage.resources.create(
        content("orphan-resource"),
        VenId("no-such-ven".to_string()),
        &admin,
        &state.storage.vens,
    );
    assert!(matches!(result, Err(AppError::NotFound)));
}

#[test]
fn pagination_partitions_without_overlap_or_gap() {
    let (state, ven1, ven2, _, _) = seeded();
    let admin = manager();

    let full = state
        .storage
        .resources
        .retrieve_all(&ven2, &query(None, None, None, None), &admin)
        .unwrap();
    let first = state
        .storage
        .resources
        .retrieve_all(&ven2, &query(None, None, Some(0), Some(2)), &admin)
        .unwrap();
    let second = state
        .storage
        .resources
        .retrieve_all(&ven2, &query(None, None, Some(2), Some(2)), &admin)
        .unwrap();
    assert_eq!(full.len(), 3);
    assert_eq!(first.len(), 2);
    assert_eq!(second.len(), 1);
    let mut joined: Vec<String> = Vec::new();
    for r in first.iter().chain(second.iter()) {
        joined.push(r.id.0.clone());
    }
    let full_ids: Vec<String> = full.iter().map(|r| r.id.0.clone()).collect();
    assert_eq!(joined, full_ids);
    let _ = ven1;
}

#[test]
fn write_permission_rule() {
    let ven = VenId("ven-1".to_string());
    let other = VenId("ven-2".to_string());

    assert!(has_write_permission(&manager(), &ven).is_ok());
    assert!(has_write_permission(&ven_user(&ven), &ven).is_ok());
    assert!(matches!(
        has_write_permission(&ven_user(&other), &ven),
        Err(AppError::Forbidden(_))
    ));
    assert!(matches!(has_write_permission(&business(), &ven), Err(AppError::Forbidden(_))));
    assert!(matches!(
        has_write_permission(&Identity::new(vec![]), &ven),
        Err(AppError::Forbidden(_))
    ));
    // several roles at once: any authorizing role is enough
    let multi = Identity::new(vec![Role::BusinessUser, Role::VenUser(ven.clone())]);
    assert!(has_write_permission(&multi, &ven).is_ok());
}

#[test]
fn update_and_delete_denied_to_outsiders() {
    let (mut state, ven1, ven2, ids1, _) = seeded();
    let outsider = ven_user(&ven2);

    let denied = state
        .storage
        .resources
        .update(&ids1[0], ven1.clone(), content("hijacked-resource"), &outsider);
    assert!(matches!(denied, Err(AppError::Forbidden(_))));

    let denied = state.storage.resources.delete(&ids1[0], ven1.clone(), &outsider);
    assert!(matches!(denied, Err(AppError::Forbidden(_))));

    // a business role without VEN rights is denied as well
    let denied = state.storage.resources.delete(&ids1[0], ven1.clone(), &business());
    assert!(matches!(denied, Err(AppError::Forbidden(_))));

    // the record is untouched
    let still_there = state.storage.resources.retrieve(&ids1[0], ven1, &manager()).unwrap();
    assert_eq!(still_there.content.resource_name, "resource-1-name");
}

#[test]
fn update_missing_resource_is_not_found() {
    let (mut state, ven1, _, _, _) = seeded();
    let missing = state.storage.resources.update(
        &ResourceId("resource-does-not-exist".to_string()),
        ven1,
        content("renamed-resource"),
        &manager(),
    );
    assert!(matches!(missing, Err(AppError::NotFound)));
}

#[test]
fn identity_accessors() {
    let ven = VenId("ven-1".to_string());
    let id = Identity::new(vec![Role::BusinessUser, Role::VenUser(ven.clone())]);
    assert!(id.is_business());
    assert!(!id.is_ven_manager());
    assert!(id.is_ven());
    assert!(id.has_role(RoleKind::Business));
    assert!(!id.has_role(RoleKind::VenManager));
    assert!(id.has_role(RoleKind::Ven));
    assert!(id.holds_ven(&ven));
    assert!(!id.holds_ven(&VenId("ven-2".to_string())));
    let held = id.held_ven_ids();
    assert_eq!(held.len(), 1);
    assert_eq!(held[0].0, "ven-1");
    assert!(manager().held_ven_ids().is_empty());
}
