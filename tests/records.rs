use api::error::Error;
use api::models::Badge;
use api::records::{deletion_result, group_badges_by_user};

fn badge(id: i64, user: &str) -> Badge {
    Badge {
        id,
        user_id: String::from(user),
        badge: format!("https://example.org/{}.png", id),
        tooltip: format!("badge {}", id),
        badge_type: String::from("image"),
    }
}

#[test]
fn groups_keep_first_appearance_and_order() {
    let groups = group_badges_by_user(vec![badge(1, "a"), badge(2, "b"), badge(3, "a"), badge(4, "c"), badge(5, "b")]);
    let shape: Vec<(String, Vec<i64>)> = groups
        .iter()
        .map(|g| (g.user_id.clone(), g.badges.iter().map(|b| b.id).collect()))
        .collect();
    assert_eq!(
        shape,
        vec![
            (String::from("a"), vec![1, 3]),
            (String::from("b"), vec![2, 5]),
            (String::from("c"), vec![4]),
        ]
    );
}

#[test]
fn no_badges_no_groups() {
    assert!(group_badges_by_user(Vec::new()).is_empty());
}

#[test]
fn deletion_of_nothing_is_not_found() {
    assert_eq!(deletion_result(0), Err(Error::NotFound));
    assert_eq!(deletion_result(1), Ok(()));
    assert_eq!(deletion_result(7), Ok(()));
}
