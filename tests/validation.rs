use feed_events::models::{AccountPermission, PaginationParams, RegisterUser};
use feed_events::validation::{
    check_birthdate, check_email_address, check_new_post_data, check_register_infos, check_username, hash_password,
    AppError,
};

fn message(r: Result<(), AppError>) -> String {
    let e = r.unwrap_err();
    assert_eq!(e.status_code, 403);
    e.message.unwrap()
}

#[test]
fn post_data_bounds() {
    assert!(check_new_post_data(1, "abc", "descr", "0123456789").is_ok());
    assert_eq!(
        message(check_new_post_data(1, "ab", "descr", "0123456789")),
        "Le titre d'un post doit contenir entre 3 et 50 caractères."
    );
    assert_eq!(
        message(check_new_post_data(1, &"t".repeat(51), "descr", "0123456789")),
        "Le titre d'un post doit contenir entre 3 et 50 caractères."
    );
    assert_eq!(
        message(check_new_post_data(1, "abc", "descr", "short")),
        "Le contenu d'un post doit contenir entre 10 et 1 000 caractères."
    );
    assert!(check_new_post_data(1, "abc", "descr", &"c".repeat(1000)).is_ok());
    assert_eq!(
        message(check_new_post_data(1, "abc", "desc", "0123456789")),
        "La description d'un post doit contenir entre 5 et 100 caractères."
    );
    assert_eq!(
        message(check_new_post_data(1, "abc", &"d".repeat(101), "0123456789")),
        "La description d'un post doit contenir entre 5 et 100 caractères."
    );
}

#[test]
fn username_rules() {
    assert!(check_username("alice_01").is_ok());
    assert_eq!(
        message(check_username("bob")),
        "Le nom d'utilisateur doit contenir entre 5 et 12 caractères."
    );
    assert_eq!(
        message(check_username("1alice")),
        "Le nom d'utilisateur doit commencer par une lettre."
    );
    assert_eq!(
        message(check_username("alice-bob")),
        "Le nom d'utilisateur ne doit contenir que des lettres, des chiffres et des underscores."
    );
    assert!(check_username("élodie").is_ok());
}

#[test]
fn email_rules() {
    assert!(check_email_address("someone@example.com").is_ok());
    assert_eq!(message(check_email_address("not an email")), "L'email est invalide.");
}

#[test]
fn register_rules() {
    let mut user = RegisterUser {
        username: "alice".to_string(),
        email: "alice@example.com".to_string(),
        password: "long enough".to_string(),
        birthdate: 0,
        is_male: None,
    };
    assert!(check_register_infos(&user).is_ok());
    user.password = "short".to_string();
    assert_eq!(message(check_register_infos(&user)), "Mot de passe trop court.");
    user.email = "nope".to_string();
    assert_eq!(message(check_register_infos(&user)), "L'email est invalide.");
}

#[test]
fn password_hash_is_sha512_hex() {
    assert_eq!(
        hash_password("abc"),
        "ddaf35a193617abacc417349ae20413112e6fa4e89a97ea20a9eeee64b55d39a2192992a274fc1a836ba3c23a3feebbd454d4423643ce80e2a9ac94fa54ca49f"
    );
}

#[test]
fn permission_codes() {
    assert_eq!(AccountPermission::from(1), AccountPermission::Moderator);
    assert_eq!(AccountPermission::from(2), AccountPermission::Administrator);
    assert_eq!(AccountPermission::from(7), AccountPermission::User);
    assert_eq!(AccountPermission::Moderator.code(), 1);
}

#[test]
fn pagination_defaults_and_bounds() {
    let p = PaginationParams { offset: None, limit: None };
    assert_eq!(p.limit_and_offset(), Some((10, 0)));
    let p = PaginationParams { offset: Some(-3), limit: Some(-1) };
    assert_eq!(p.limit_and_offset(), Some((10, 0)));
    let p = PaginationParams { offset: Some(20), limit: Some(5) };
    assert_eq!(p.limit_and_offset(), Some((5, 20)));
    let p = PaginationParams { offset: Some(20), limit: Some(0) };
    assert_eq!(p.limit_and_offset(), None);
}

#[test]
fn birthdate_range() {
    let now = 1_700_000_000;
    assert!(check_birthdate(0, now).is_ok());
    assert!(check_birthdate(-2_208_988_800, now).is_ok());
    assert_eq!(message(check_birthdate(-2_208_988_801, now)), "Date de naissance invalide.");
    assert_eq!(message(check_birthdate(now + 1, now)), "Date de naissance invalide.");
    assert!(check_birthdate(now, now).is_ok());
}

#[test]
fn error_constructors() {
    let e = AppError::internal_server_error();
    assert_eq!(e.status_code, 500);
    assert!(e.message.is_none());
    let e = AppError::you_have_to_be_connected_to_perform_this_action_error();
    assert_eq!(e.status_code, 403);
    assert_eq!(e.message.unwrap(), "Vous devez être connecté pour effectuer cette action");
    let e = AppError::new(404, Some("x".to_string()));
    assert_eq!(e.status_code, 404);
    assert_eq!(AppError::forbidden_error(None).status_code, 403);
}
