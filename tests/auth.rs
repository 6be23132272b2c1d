use api::claims::{login_expiry, Claims};
use api::error::Error;
use api::models::User;
use api::permissions::{require_permissions, Permissions};

#[test]
fn claims_from_user() {
    let user = User { id: String::from("80351110224678912"), permissions: 5 };
    let claims = Claims::new(&user, 1700000000);
    assert_eq!(claims.user_id(), "80351110224678912");
    assert_eq!(claims.expires_at(), 1700000000);
    assert_eq!(claims.permissions(), Permissions::from_bits(5));
    assert_eq!(claims.subject_id(), Some(80351110224678912));
}

#[test]
fn subject_that_is_not_an_id() {
    let claims = Claims::from_parts(String::from("someone"), 1, 0);
    assert_eq!(claims.subject_id(), None);
    let zero = Claims::from_parts(String::from("0"), 1, 0);
    assert_eq!(zero.subject_id(), None);
}

#[test]
fn permission_values() {
    assert_eq!(Permissions::admin().bits(), 7);
    assert_eq!(Permissions::owner().bits(), 15);
    assert!(Permissions::owner().contains(Permissions::manage_users()));
    assert!(!Permissions::admin().contains(Permissions::manage_users()));
    assert_eq!(Permissions::list_bans().union(Permissions::manage_badges()).bits(), 5);
    assert_eq!(Permissions::admin().difference(Permissions::manage_bans()).bits(), 5);
    assert!(Permissions::none().contains(Permissions::none()));
}

#[test]
fn require_permissions_accepts_superset() {
    assert_eq!(require_permissions(Permissions::admin(), Permissions::manage_badges()), Ok(()));
    assert_eq!(require_permissions(Permissions::owner(), Permissions::owner()), Ok(()));
}

#[test]
fn require_permissions_names_missing() {
    let r = require_permissions(Permissions::list_bans(), Permissions::admin());
    assert_eq!(
        r,
        Err(Error::MissingPermissions { missing_permissions: Permissions::from_bits(6) })
    );
}

#[test]
fn login_expiry_is_thirty_days_later() {
    assert_eq!(login_expiry(1_700_000_000), Some(1_702_592_000));
    assert_eq!(login_expiry(-2_592_000), Some(0));
    assert_eq!(login_expiry(-2_592_001), None);
    assert_eq!(login_expiry(i64::MAX), None);
}

#[test]
fn error_statuses_and_messages() {
    let cases = [
        (Error::Auth, 401, "Unauthorized"),
        (Error::MissingPermissions { missing_permissions: Permissions::none() }, 403, "Missing Permissions"),
        (Error::NotFound, 404, "Not Found"),
        (Error::Conflict, 409, "Conflict with another resource"),
        (Error::RowNotFound, 404, "Resource Not Found"),
        (Error::Internal, 500, "Internal Server Error"),
    ];
    for (error, status, message) in cases {
        assert_eq!(error.status_code(), status);
        assert_eq!(error.public_message(), message);
        assert_eq!(error.is_internal(), status == 500);
    }
}

#[test]
fn permissions_from_bits() {
    assert_eq!(Permissions::from(12i64).bits(), 12);
    assert_eq!(Permissions::from(15i64), Permissions::owner());
}
