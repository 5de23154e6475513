use role_store::role::NewRole;
use role_store::role::Role;
use role_store::store::RoleStore;
use role_store::store::StoreError;

fn payload(person_id: u128, team_id: u128, title_en: &str, title_fr: &str) -> NewRole {
    NewRole::new(
        person_id,
        team_id,
        title_en.to_string(),
        title_fr.to_string(),
        (0.5f64).to_bits(),
        true,
        1672531200,
        None,
    )
}

#[test]
fn create_then_get_by_id_returns_equal_record() {
    let mut s = RoleStore::new();
    let n = payload(11, 22, "Engineer", "Ingénieur");
    let created = s.create(&n).expect("create should succeed on an empty store");
    let got = s.get_by_id(created.id).expect("created id must be found");
    assert_eq!(got.id, created.id);
    assert_eq!(got.person_id, 11);
    assert_eq!(got.team_id, 22);
    assert_eq!(got.title_en, "Engineer");
    assert_eq!(got.title_fr, "Ingénieur");
    assert_eq!(got.effort, (0.5f64).to_bits());
    assert!(got.active);
    assert_eq!(got.start_datestamp, 1672531200);
    assert_eq!(got.end_date, None);
    assert_eq!(got.created_at, created.created_at);
    assert_eq!(got.updated_at, created.created_at);
}

#[test]
fn create_with_duplicate_id_is_refused() {
    let mut s = RoleStore::new();
    let n = payload(1, 2, "A", "A");
    let first = s.create_with(&n, 7, 1000);
    assert!(first.is_ok());
    let m = payload(3, 4, "B", "B");
    let second = s.create_with(&m, 7, 1001);
    assert_eq!(second.unwrap_err(), StoreError::DuplicateId);
    let all = s.find_all().unwrap();
    assert_eq!(all.len(), 1);
}

#[test]
fn get_or_create_twice_returns_same_id() {
    let mut s = RoleStore::new();
    let n1 = payload(99, 1, "Engineer", "Ingénieur");
    let first = s.get_or_create(&n1).expect("first call creates");
    let n2 = payload(99, 2, "Manager", "Gestionnaire");
    let second = s.get_or_create(&n2).expect("second call finds");
    assert_eq!(second.id, first.id);
    assert_eq!(second.team_id, 1);
    assert_eq!(second.title_en, "Engineer");
    let all = s.find_all().unwrap();
    assert_eq!(all.len(), 1);
}

#[test]
fn get_or_create_finds_earliest_row_for_person() {
    let mut s = RoleStore::new();
    let a = payload(5, 1, "First", "Premier");
    let b = payload(5, 2, "Second", "Deuxième");
    let ra = s.create_with(&a, 100, 1000).unwrap();
    s.create_with(&b, 101, 1001).unwrap();
    let found = s.get_or_create(&payload(5, 3, "Third", "Troisième")).unwrap();
    assert_eq!(found.id, ra.id);
    assert_eq!(found.title_en, "First");
    assert_eq!(s.find_all().unwrap().len(), 2);
}

#[test]
fn get_by_team_id_with_no_match_is_empty_not_error() {
    let mut s = RoleStore::new();
    s.create_with(&payload(1, 2, "A", "A"), 1, 1000).unwrap();
    let res = s.get_by_team_id(777).expect("no match is not an error");
    assert!(res.is_empty());
}

#[test]
fn get_by_person_id_with_no_match_is_empty_not_error() {
    let mut s = RoleStore::new();
    s.create_with(&payload(1, 2, "A", "A"), 1, 1000).unwrap();
    let res = s.get_by_person_id(777).expect("no match is not an error");
    assert!(res.is_empty());
}

#[test]
fn get_by_team_id_returns_matching_rows_in_order() {
    let mut s = RoleStore::new();
    s.create_with(&payload(1, 50, "A", "A"), 1, 1000).unwrap();
    s.create_with(&payload(2, 60, "B", "B"), 2, 1001).unwrap();
    s.create_with(&payload(3, 50, "C", "C"), 3, 1002).unwrap();
    let res = s.get_by_team_id(50).unwrap();
    assert_eq!(res.len(), 2);
    assert_eq!(res[0].id, 1);
    assert_eq!(res[1].id, 3);
}

#[test]
fn get_by_person_id_returns_matching_rows_in_order() {
    let mut s = RoleStore::new();
    s.create_with(&payload(8, 1, "A", "A"), 1, 1000).unwrap();
    s.create_with(&payload(9, 2, "B", "B"), 2, 1001).unwrap();
    s.create_with(&payload(8, 3, "C", "C"), 3, 1002).unwrap();
    let res = s.get_by_person_id(8).unwrap();
    assert_eq!(res.len(), 2);
    assert_eq!(res[0].id, 1);
    assert_eq!(res[1].id, 3);
}

#[test]
fn get_by_id_on_missing_id_is_not_found() {
    let s = RoleStore::new();
    assert_eq!(s.get_by_id(12345).unwrap_err(), StoreError::NotFound);
}

#[test]
fn find_all_returns_rows_in_insertion_order() {
    let mut s = RoleStore::new();
    s.create_with(&payload(1, 1, "A", "A"), 10, 1000).unwrap();
    s.create_with(&payload(2, 2, "B", "B"), 20, 1001).unwrap();
    s.create_with(&payload(3, 3, "C", "C"), 30, 1002).unwrap();
    let all = s.find_all().unwrap();
    assert_eq!(all.len(), 3);
    assert_eq!(all[0].id, 10);
    assert_eq!(all[1].id, 20);
    assert_eq!(all[2].id, 30);
}

#[test]
fn find_all_on_empty_store_is_empty() {
    let s = RoleStore::new();
    assert!(s.find_all().unwrap().is_empty());
}

#[test]
fn update_changes_only_the_targeted_row() {
    let mut s = RoleStore::new();
    let created = s.create_with(&payload(1, 2, "Engineer", "Ingénieur"), 7, 1000).unwrap();
    let other = s.create_with(&payload(3, 4, "Clerk", "Commis"), 8, 1000).unwrap();
    let changes = Role {
        id: 7,
        person_id: 1,
        team_id: 99,
        title_en: "Senior Engineer".to_string(),
        title_fr: "Ingénieur principal".to_string(),
        effort: (1.0f64).to_bits(),
        active: false,
        start_datestamp: 1672531200,
        end_date: Some(1675209600),
        // bookkeeping stamps in the argument are ignored: the store keeps the
        // stored creation stamp and stamps the clock reading on update
        created_at: 42,
        updated_at: 42,
    };
    let row = s.update_with(&changes, 2000).expect("row 7 exists");
    assert_eq!(row.id, 7);
    assert_eq!(row.created_at, created.created_at);
    assert_eq!(row.updated_at, 2000);
    assert_eq!(row.team_id, 99);
    assert_eq!(row.title_en, "Senior Engineer");
    assert_eq!(row.title_fr, "Ingénieur principal");
    assert_eq!(row.effort, (1.0f64).to_bits());
    assert!(!row.active);
    assert_eq!(row.end_date, Some(1675209600));
    let stored = s.get_by_id(7).unwrap();
    assert_eq!(stored.title_en, "Senior Engineer");
    assert_eq!(stored.updated_at, 2000);
    let untouched = s.get_by_id(8).unwrap();
    assert_eq!(untouched.title_en, "Clerk");
    assert_eq!(untouched.team_id, 4);
    assert_eq!(untouched.updated_at, other.updated_at);
}

#[test]
fn update_on_missing_id_is_not_found() {
    let mut s = RoleStore::new();
    let changes = Role {
        id: 555,
        person_id: 1,
        team_id: 2,
        title_en: "A".to_string(),
        title_fr: "A".to_string(),
        effort: 0,
        active: true,
        start_datestamp: 1000,
        end_date: None,
        created_at: 1000,
        updated_at: 1000,
    };
    assert_eq!(s.update_with(&changes, 2000).unwrap_err(), StoreError::NotFound);
    assert_eq!(s.update(&changes).unwrap_err(), StoreError::NotFound);
}

#[test]
fn new_role_keeps_every_field() {
    let n = NewRole::new(
        1,
        2,
        "Engineer".to_string(),
        "Ingénieur".to_string(),
        (0.25f64).to_bits(),
        false,
        1672531200,
        Some(1675209600),
    );
    assert_eq!(n.person_id, 1);
    assert_eq!(n.team_id, 2);
    assert_eq!(n.title_en, "Engineer");
    assert_eq!(n.title_fr, "Ingénieur");
    assert_eq!(n.effort, (0.25f64).to_bits());
    assert!(!n.active);
    assert_eq!(n.start_datestamp, 1672531200);
    assert_eq!(n.end_date, Some(1675209600));
}
