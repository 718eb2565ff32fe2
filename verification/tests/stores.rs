use gallery_api::artifacts::model::ArtifactInput;
use gallery_api::artifacts::store::InMemoryArtifactStore;
use gallery_api::artists::model::ArtistInput;
use gallery_api::artists::store::InMemoryArtistStore;
use gallery_api::error::AppError;
use gallery_api::tribes::model::TribeInput;
use gallery_api::tribes::store::InMemoryTribeStore;
use gallery_api::users::store::InMemoryUserStore;

fn ghost() -> u128 {
    uuid::Uuid::new_v4().as_u128()
}

fn artifact_input(title: &str) -> ArtifactInput {
    ArtifactInput {
        title: title.to_string(),
        artist_id: ghost(),
        art_type: None,
        art_style: None,
        medium: None,
        year_created: None,
        height_cm: None,
        width_cm: None,
        depth_cm: None,
        description: None,
    }
}

#[test]
fn create_then_find_roundtrips() {
    let mut store = InMemoryArtifactStore::new();
    let created = store.create(artifact_input("Water Dreaming")).unwrap();
    let found = store.find(created.id).unwrap();
    assert_eq!(found.id, created.id);
    assert_eq!(found.title, "Water Dreaming");
}

#[test]
fn find_missing_id_is_not_found() {
    let store = InMemoryArtifactStore::new();
    assert!(matches!(store.find(ghost()).unwrap_err(), AppError::NotFound));
}

#[test]
fn list_is_ordered_by_title() {
    let mut store = InMemoryArtifactStore::new();
    store.create(artifact_input("Untitled")).unwrap();
    store.create(artifact_input("Bush Tucker")).unwrap();
    store.create(artifact_input("Mina Mina")).unwrap();
    let titles: Vec<_> = store.list().unwrap().into_iter().map(|a| a.title).collect();
    assert_eq!(titles, ["Bush Tucker", "Mina Mina", "Untitled"]);
}

#[test]
fn update_replaces_fields_and_preserves_created_at() {
    let mut store = InMemoryArtifactStore::new();
    let created = store.create(artifact_input("Old Title")).unwrap();
    let mut next = artifact_input("New Title");
    next.medium = Some("Ochre on bark".into());
    let updated = store.update(created.id, next).unwrap();
    assert_eq!(updated.title, "New Title");
    assert_eq!(updated.medium.as_deref(), Some("Ochre on bark"));
    assert_eq!(updated.created_at, created.created_at);
}

#[test]
fn update_missing_id_is_not_found() {
    let mut store = InMemoryArtifactStore::new();
    assert!(matches!(store.update(ghost(), artifact_input("x")).unwrap_err(), AppError::NotFound));
}

#[test]
fn delete_removes_then_404s_on_second_delete() {
    let mut store = InMemoryArtifactStore::new();
    let created = store.create(artifact_input("Temp")).unwrap();
    store.delete(created.id).unwrap();
    assert!(matches!(store.delete(created.id).unwrap_err(), AppError::NotFound));
}

fn artist_input(name: &str) -> ArtistInput {
    ArtistInput {
        display_name: name.to_string(),
        birth_year: None,
        death_year: None,
        region: None,
        biography: None,
        tribe_id: None,
    }
}

#[test]
fn store_create_then_find_roundtrips() {
    let mut store = InMemoryArtistStore::new();
    let created = store.create(artist_input("Emily Kame Kngwarreye")).unwrap();
    let found = store.find(created.id).unwrap();
    assert_eq!(found.id, created.id);
    assert_eq!(found.display_name, "Emily Kame Kngwarreye");
}

#[test]
fn store_find_missing_id_is_not_found() {
    let store = InMemoryArtistStore::new();
    let err = store.find(ghost()).unwrap_err();
    assert!(matches!(err, AppError::NotFound));
}

#[test]
fn list_is_ordered_by_display_name() {
    let mut store = InMemoryArtistStore::new();
    store.create(artist_input("Rover Thomas")).unwrap();
    store.create(artist_input("Albert Namatjira")).unwrap();
    store.create(artist_input("Clifford Possum")).unwrap();
    let names: Vec<_> = store.list().unwrap().into_iter().map(|a| a.display_name).collect();
    assert_eq!(names, ["Albert Namatjira", "Clifford Possum", "Rover Thomas"]);
}

#[test]
fn store_update_replaces_fields_and_preserves_created_at() {
    let mut store = InMemoryArtistStore::new();
    let created = store.create(artist_input("Old Name")).unwrap();
    let mut next = artist_input("New Name");
    next.birth_year = Some(1940);
    let updated = store.update(created.id, next).unwrap();
    assert_eq!(updated.display_name, "New Name");
    assert_eq!(updated.birth_year, Some(1940));
    assert_eq!(updated.created_at, created.created_at);
}

#[test]
fn store_update_missing_id_is_not_found() {
    let mut store = InMemoryArtistStore::new();
    let err = store.update(ghost(), artist_input("x")).unwrap_err();
    assert!(matches!(err, AppError::NotFound));
}

#[test]
fn store_delete_removes_then_404s_on_second_delete() {
    let mut store = InMemoryArtistStore::new();
    let created = store.create(artist_input("Temp")).unwrap();
    store.delete(created.id).unwrap();
    assert!(matches!(store.find(created.id).unwrap_err(), AppError::NotFound));
    assert!(matches!(store.delete(created.id).unwrap_err(), AppError::NotFound));
}

#[test]
fn artist_created_at_a_given_time_and_id() {
    let mut store = InMemoryArtistStore::new();
    let a = store.create_at(artist_input("Kitty Kantilla"), 7, 1_000);
    assert_eq!(a.id, 7);
    assert_eq!(a.created_at, 1_000);
    assert_eq!(a.updated_at, 1_000);
    let b = store.update_at(7, artist_input("Kitty"), 2_000).unwrap();
    assert_eq!(b.created_at, 1_000);
    assert_eq!(b.updated_at, 2_000);
    assert_eq!(store.find(7).unwrap().display_name, "Kitty");
}

fn tribe_input(name: &str) -> TribeInput {
    TribeInput { name: name.to_string(), region: None, language_group: None, description: None }
}

#[test]
fn tribe_store_create_then_find_roundtrips() {
    let mut store = InMemoryTribeStore::new();
    let created = store.create(tribe_input("Pintupi")).unwrap();
    let found = store.find(created.id).unwrap();
    assert_eq!(found.name, "Pintupi");
    assert!(found.territory.is_none());
}

#[test]
fn duplicate_name_is_conflict() {
    let mut store = InMemoryTribeStore::new();
    store.create(tribe_input("Yolngu")).unwrap();
    assert!(matches!(store.create(tribe_input("Yolngu")).unwrap_err(), AppError::Conflict(_)));
}

#[test]
fn duplicate_name_ignores_case() {
    let mut store = InMemoryTribeStore::new();
    let first = store.create(tribe_input("Yolngu")).unwrap();
    let err = store.create(tribe_input("YOLNGU")).unwrap_err();
    assert_eq!(err, AppError::Conflict("a tribe with this name already exists".to_string()));
    // a tribe may keep its own name in another case
    let renamed = store.update(first.id, tribe_input("yolngu")).unwrap();
    assert_eq!(renamed.name, "yolngu");
    let second = store.create(tribe_input("Tiwi")).unwrap();
    assert!(matches!(store.update(second.id, tribe_input("YolNgu")).unwrap_err(), AppError::Conflict(_)));
}

#[test]
fn list_is_ordered_by_name() {
    let mut store = InMemoryTribeStore::new();
    store.create(tribe_input("Warlpiri")).unwrap();
    store.create(tribe_input("Anmatyerre")).unwrap();
    store.create(tribe_input("Tiwi")).unwrap();
    let names: Vec<_> = store.list().unwrap().into_iter().map(|t| t.name).collect();
    assert_eq!(names, ["Anmatyerre", "Tiwi", "Warlpiri"]);
}

#[test]
fn update_preserves_territory_and_created_at() {
    let mut store = InMemoryTribeStore::new();
    let created = store.create(tribe_input("Old")).unwrap();
    let geom = r#"{"type":"Point","coordinates":[131.0,-23.0]}"#.to_string();
    store.set_territory(created.id, Some(geom.clone())).unwrap();

    let updated = store.update(created.id, tribe_input("Renamed")).unwrap();
    assert_eq!(updated.name, "Renamed");
    assert_eq!(updated.territory.as_ref(), Some(&geom));
    assert_eq!(updated.created_at, created.created_at);
}

#[test]
fn set_then_clear_territory() {
    let mut store = InMemoryTribeStore::new();
    let created = store.create(tribe_input("Arrernte")).unwrap();
    let geom = r#"{"type":"Point","coordinates":[133.8,-23.7]}"#.to_string();

    let with = store.set_territory(created.id, Some(geom.clone())).unwrap();
    assert_eq!(with.territory.as_ref(), Some(&geom));

    let without = store.set_territory(created.id, None).unwrap();
    assert!(without.territory.is_none());
}

#[test]
fn store_missing_ids_are_not_found() {
    let mut store = InMemoryTribeStore::new();
    let ghost = ghost();
    assert!(matches!(store.find(ghost).unwrap_err(), AppError::NotFound));
    assert!(matches!(store.update(ghost, tribe_input("x")).unwrap_err(), AppError::NotFound));
    assert!(matches!(store.delete(ghost).unwrap_err(), AppError::NotFound));
    assert!(matches!(store.set_territory(ghost, None).unwrap_err(), AppError::NotFound));
}

#[test]
fn search_near_lists_tribes_with_a_territory() {
    let mut store = InMemoryTribeStore::new();
    let a = store.create(tribe_input("Inside")).unwrap();
    store.create(tribe_input("NoTerritory")).unwrap();
    let c = store.create(tribe_input("FarAway")).unwrap();
    store.set_territory(a.id, Some("{}".to_string())).unwrap();
    store.set_territory(c.id, Some("{}".to_string())).unwrap();
    let mut names: Vec<_> = store.search_near().unwrap().into_iter().map(|t| t.name).collect();
    names.sort();
    assert_eq!(names, ["FarAway", "Inside"]);
}

#[test]
fn create_then_find_and_find_by_email() {
    let mut store = InMemoryUserStore::new();
    let u = store.create("Alice@Example.com", "hash", "User").unwrap();
    assert_eq!(store.find(u.id).unwrap().id, u.id);
    let by = store.find_by_email("alice@example.com").unwrap();
    assert_eq!(by.map(|x| x.id), Some(u.id));
}

#[test]
fn duplicate_email_is_conflict_case_insensitive() {
    let mut store = InMemoryUserStore::new();
    store.create("bob@example.com", "h", "User").unwrap();
    assert!(matches!(store.create("BOB@example.com", "h", "User").unwrap_err(), AppError::Conflict(_)));
}

#[test]
fn update_is_partial_coalesce() {
    let mut store = InMemoryUserStore::new();
    let u = store.create("carol@example.com", "old-hash", "User").unwrap();
    let updated = store.update(u.id, None, None, Some("Admin")).unwrap();
    assert_eq!(updated.role, "Admin");
    assert_eq!(updated.email, "carol@example.com");
    assert_eq!(updated.password_hash, "old-hash");
    assert_eq!(updated.created_at, u.created_at);
}

#[test]
fn update_to_an_existing_email_is_conflict() {
    let mut store = InMemoryUserStore::new();
    store.create("a@example.com", "h", "User").unwrap();
    let b = store.create("b@example.com", "h", "User").unwrap();
    assert!(matches!(store.update(b.id, Some("A@example.com"), None, None).unwrap_err(), AppError::Conflict(_)));
}

#[test]
fn missing_ids_are_not_found() {
    let mut store = InMemoryUserStore::new();
    let ghost = ghost();
    assert!(matches!(store.find(ghost).unwrap_err(), AppError::NotFound));
    assert!(matches!(store.update(ghost, None, None, Some("User")).unwrap_err(), AppError::NotFound));
    assert!(matches!(store.delete(ghost).unwrap_err(), AppError::NotFound));
}

#[test]
fn find_by_email_returns_none_for_unknown() {
    let store = InMemoryUserStore::new();
    assert!(store.find_by_email("nobody@example.com").unwrap().is_none());
}

#[test]
fn users_are_listed_by_email() {
    let mut store = InMemoryUserStore::new();
    store.create("zed@example.com", "h", "User").unwrap();
    store.create("amy@example.com", "h", "Admin").unwrap();
    let emails: Vec<_> = store.list().unwrap().into_iter().map(|u| u.email).collect();
    assert_eq!(emails, ["amy@example.com", "zed@example.com"]);
}
