use gallery_api::artifacts::model::ArtifactInput;
use gallery_api::artists::model::ArtistInput;
use gallery_api::tribes::model::TribeInput;
use gallery_api::users::model::{validate_email, validate_password, LoginInput, RegisterInput, UserUpdate};
use gallery_api::auth::jwt::Role;

fn artifact_base() -> ArtifactInput {
    ArtifactInput {
        title: "Bush Plum Dreaming".into(),
        artist_id: uuid::Uuid::new_v4().as_u128(),
        art_type: None,
        art_style: None,
        medium: None,
        year_created: None,
        height_cm: None,
        width_cm: None,
        depth_cm: None,
        description: None,
    }
}

#[test]
fn accepts_a_well_formed_input() {
    assert!(artifact_base().validate().is_ok());
}

#[test]
fn rejects_blank_title() {
    let mut a = artifact_base();
    a.title = "   ".into();
    assert!(a.validate().is_err());
}

#[test]
fn rejects_non_positive_dimensions() {
    for setter in [
        |a: &mut ArtifactInput| a.height_cm = Some(0),
        |a: &mut ArtifactInput| a.width_cm = Some(-5),
        |a: &mut ArtifactInput| a.depth_cm = Some(-1),
    ] {
        let mut a = artifact_base();
        setter(&mut a);
        assert!(a.validate().is_err());
    }
}

#[test]
fn allows_positive_dimensions_and_omitted_ones() {
    let mut a = artifact_base();
    a.height_cm = Some(120);
    a.width_cm = Some(90);
    assert!(a.validate().is_ok());
}

#[test]
fn artifact_messages_name_the_field() {
    let mut a = artifact_base();
    a.title = "".into();
    assert_eq!(a.validate(), Err("title cannot be empty".to_string()));
    let mut b = artifact_base();
    b.width_cm = Some(0);
    assert_eq!(b.validate(), Err("width_cm must be positive".to_string()));
    let mut c = artifact_base();
    c.height_cm = Some(-1);
    c.depth_cm = Some(-1);
    assert_eq!(c.validate(), Err("height_cm must be positive".to_string()));
}

fn artist_base() -> ArtistInput {
    ArtistInput {
        display_name: "Albert Namatjira".into(),
        birth_year: None,
        death_year: None,
        region: None,
        biography: None,
        tribe_id: None,
    }
}

#[test]
fn model_accepts_a_well_formed_input() {
    assert!(artist_base().validate().is_ok());
}

#[test]
fn rejects_empty_or_whitespace_display_name() {
    let mut a = artist_base();
    a.display_name = String::new();
    assert!(a.validate().is_err());
    a.display_name = "   ".into();
    assert!(a.validate().is_err());
}

#[test]
fn rejects_death_year_before_birth_year() {
    let mut a = artist_base();
    a.birth_year = Some(1950);
    a.death_year = Some(1940);
    assert!(a.validate().is_err());
}

#[test]
fn allows_equal_birth_and_death_year() {
    let mut a = artist_base();
    a.birth_year = Some(1950);
    a.death_year = Some(1950);
    assert!(a.validate().is_ok());
}

#[test]
fn allows_a_lone_birth_or_death_year() {
    let mut a = artist_base();
    a.birth_year = Some(1902);
    assert!(a.validate().is_ok());
    let mut b = artist_base();
    b.death_year = Some(1959);
    assert!(b.validate().is_ok());
}

#[test]
fn artist_messages_name_the_field() {
    let mut a = artist_base();
    a.display_name = "\t\n".into();
    assert_eq!(a.validate(), Err("display_name cannot be empty".to_string()));
    let mut b = artist_base();
    b.birth_year = Some(1990);
    b.death_year = Some(1980);
    assert_eq!(b.validate(), Err("death_year must be greater than or equal to birth_year".to_string()));
}

#[test]
fn tribe_name_must_not_be_blank() {
    let mut t = TribeInput { name: "Pintupi".into(), region: None, language_group: None, description: None };
    assert_eq!(t.validate(), Ok(()));
    t.name = "   ".into();
    assert_eq!(t.validate(), Err("name cannot be empty".to_string()));
    t.name = String::new();
    assert_eq!(t.validate(), Err("name cannot be empty".to_string()));
}

#[test]
fn email_shape_is_checked_after_trimming() {
    assert_eq!(validate_email("  alice@example.com  "), Ok(()));
    assert_eq!(validate_email("   "), Err("email cannot be empty".to_string()));
    assert_eq!(validate_email("not-an-email"), Err("email must look like 'name@host.tld'".to_string()));
    assert_eq!(validate_email("a@b"), Err("email must look like 'name@host.tld'".to_string()));
}

#[test]
fn password_length_counts_characters() {
    let refused = Err("password must be at least 8 characters".to_string());
    assert_eq!(validate_password("short"), refused);
    assert_eq!(validate_password("1234567"), refused);
    assert_eq!(validate_password("longenough"), Ok(()));
    assert_eq!(validate_password("12345678"), Ok(()));
    // four characters are too few, however many bytes they take
    assert_eq!(validate_password("éééé"), refused);
    assert_eq!(validate_password("éééééééé"), Ok(()));
}

#[test]
fn registration_checks_email_before_password() {
    let r = RegisterInput { email: "bad".into(), password: "short".into() };
    assert_eq!(r.validate(), Err("email must look like 'name@host.tld'".to_string()));
    let r = RegisterInput { email: "bob@example.com".into(), password: "short".into() };
    assert_eq!(r.validate(), Err("password must be at least 8 characters".to_string()));
    let r = RegisterInput { email: "bob@example.com".into(), password: "longenough".into() };
    assert_eq!(r.validate(), Ok(()));
}

#[test]
fn login_needs_both_fields() {
    let l = LoginInput { email: "  ".into(), password: "x".into() };
    assert_eq!(l.validate(), Err("email cannot be empty".to_string()));
    let l = LoginInput { email: "a@b.c".into(), password: "".into() };
    assert_eq!(l.validate(), Err("password cannot be empty".to_string()));
    let l = LoginInput { email: "a@b.c".into(), password: "x".into() };
    assert_eq!(l.validate(), Ok(()));
}

#[test]
fn user_update_checks_only_given_fields() {
    let u = UserUpdate { email: None, password: None, role: Some(Role::Admin) };
    assert_eq!(u.validate(), Ok(()));
    let u = UserUpdate { email: Some("nope".into()), password: Some("short".into()), role: None };
    assert_eq!(u.validate(), Err("email must look like 'name@host.tld'".to_string()));
    let u = UserUpdate { email: None, password: Some("short".into()), role: None };
    assert_eq!(u.validate(), Err("password must be at least 8 characters".to_string()));
}
