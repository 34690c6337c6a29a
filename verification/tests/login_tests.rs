use crunchyroll_stats::login::{LoginRequest, ValidationError, MAX_EMAIL_CHARS, MAX_PASSWORD_CHARS};
use crunchyroll_stats::profile::{select_active, ProfileDescriptor, ProfileError};

fn login(email: &str, password: &str) -> LoginRequest {
    LoginRequest { email: email.to_string(), password: password.to_string() }
}

fn descriptor(id: &str, selected: bool) -> ProfileDescriptor {
    ProfileDescriptor {
        profile_id: id.to_string(),
        username: format!("user-{}", id),
        profile_name: format!("name-{}", id),
        avatar: format!("{}.png", id),
        maturity_rating: "M2".to_string(),
        is_primary: id == "a",
        is_selected: selected,
    }
}

#[test]
fn limits() {
    assert_eq!(MAX_EMAIL_CHARS, 254);
    assert_eq!(MAX_PASSWORD_CHARS, 128);
}

#[test]
fn well_formed_credentials_pass() {
    assert_eq!(login("user@example.com", "hunter2").validate(), Ok(()));
    assert_eq!(login("user@example.com", "x").validate(), Ok(()));
    assert_eq!(login("user@example.com", &"p".repeat(128)).validate(), Ok(()));
}

#[test]
fn malformed_email_is_marked() {
    assert_eq!(
        login("not-an-email", "hunter2").validate(),
        Err(ValidationError { email: true, password: false })
    );
    assert_eq!(
        login("", "hunter2").validate(),
        Err(ValidationError { email: true, password: false })
    );
    assert_eq!(
        login("user@", "hunter2").validate(),
        Err(ValidationError { email: true, password: false })
    );
}

#[test]
fn overlong_email_is_marked() {
    let domain = format!("{}.{}.{}.com", "a".repeat(63), "b".repeat(63), "c".repeat(63));
    let fits = format!("{}@{}", "u".repeat(58), domain);
    assert_eq!(fits.chars().count(), 254);
    assert_eq!(login(&fits, "pw").validate(), Ok(()));
    let too_long = format!("{}@{}", "u".repeat(59), domain);
    assert_eq!(too_long.chars().count(), 255);
    assert_eq!(
        login(&too_long, "pw").validate(),
        Err(ValidationError { email: true, password: false })
    );
}

#[test]
fn empty_or_oversized_password_is_marked() {
    assert_eq!(
        login("user@example.com", "").validate(),
        Err(ValidationError { email: false, password: true })
    );
    assert_eq!(
        login("user@example.com", &"p".repeat(129)).validate(),
        Err(ValidationError { email: false, password: true })
    );
}

#[test]
fn password_length_counts_characters() {
    assert_eq!(login("user@example.com", &"é".repeat(128)).validate(), Ok(()));
    assert_eq!(
        login("user@example.com", &"é".repeat(129)).validate(),
        Err(ValidationError { email: false, password: true })
    );
}

#[test]
fn both_fields_can_be_marked() {
    assert_eq!(
        login("nope", "").validate(),
        Err(ValidationError { email: true, password: true })
    );
}

#[test]
fn zeroize_empties_both_fields() {
    let mut l = login("user@example.com", "hunter2");
    l.zeroize();
    assert_eq!(l.email, "");
    assert_eq!(l.password, "");
}

#[test]
fn first_selected_profile_is_chosen() {
    let got = select_active(vec![descriptor("a", false), descriptor("b", true), descriptor("c", true)])
        .unwrap();
    assert_eq!(got.profile_id, "b");
    assert_eq!(got.username, "user-b");
    assert_eq!(got.profile_name, "name-b");
    assert_eq!(got.avatar, "b.png");
    assert_eq!(got.maturity_rating, "M2");
    assert!(!got.is_primary);
}

#[test]
fn no_selected_profile_is_an_error() {
    let err = select_active(vec![descriptor("a", false), descriptor("b", false)]).unwrap_err();
    assert_eq!(err, ProfileError::NoActiveProfile);
    assert_eq!(err.message(), "No active profile found");
    assert!(select_active(Vec::new()).is_err());
}
