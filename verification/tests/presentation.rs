use role_store::role::NewRole;
use role_store::store::RoleStore;

#[test]
fn active_role_with_no_end_shows_sentinels() {
    let mut s = RoleStore::new();
    let n = NewRole::new(
        1,
        2,
        "Engineer".to_string(),
        "Ingénieur".to_string(),
        (1.0f64).to_bits(),
        true,
        1672531200,
        None,
    );
    let role = s.create(&n).expect("create succeeds on an empty store");
    assert_eq!(role.active(), "Active");
    assert_eq!(role.end_date(), "Still Active");
    assert_eq!(role.english_title(), "Engineer");
    assert_eq!(role.french_title(), "Ingénieur");
    assert_eq!(role.effort(), (1.0f64).to_bits());
    assert_eq!(f64::from_bits(role.effort()), 1.0);
    assert_eq!(role.person(), 1);
    assert_eq!(role.team(), 2);
}

#[test]
fn inactive_role_shows_uppercase_status() {
    let mut s = RoleStore::new();
    let n = NewRole::new(
        1,
        2,
        "Clerk".to_string(),
        "Commis".to_string(),
        (0.5f64).to_bits(),
        false,
        1672531200,
        None,
    );
    let role = s.create_with(&n, 3, 1000).unwrap();
    assert_eq!(role.active(), "INACTIVE");
}

#[test]
fn datestamps_render_under_the_calendar_pattern() {
    let mut s = RoleStore::new();
    let n = NewRole::new(
        1,
        2,
        "Engineer".to_string(),
        "Ingénieur".to_string(),
        (1.0f64).to_bits(),
        true,
        // 2023-01-01T00:00:00Z
        1672531200,
        // 2023-02-01T00:00:00Z
        Some(1675209600),
    );
    // clock reading: 2023-03-15T12:00:00Z
    let role = s.create_with(&n, 9, 1678881600).unwrap();
    assert_eq!(role.start_date(), "2023-01-01");
    assert_eq!(role.end_date(), "2023-02-01");
    assert_eq!(role.created_at(), "2023-03-15");
    assert_eq!(role.updated_at(), "2023-03-15");
}

#[test]
fn epoch_and_far_future_render() {
    let mut s = RoleStore::new();
    let n = NewRole::new(
        1,
        2,
        "Engineer".to_string(),
        "Ingénieur".to_string(),
        0,
        true,
        0,
        Some(253402300799),
    );
    let role = s.create_with(&n, 1, 0).unwrap();
    assert_eq!(role.start_date(), "1970-01-01");
    assert_eq!(role.end_date(), "9999-12-31");
}
