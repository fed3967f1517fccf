use model::LoadError;
use model::auth::Level;
use model::auth::Role;
use model::auth::UserState;

fn s(x: &str) -> String {
    x.to_string()
}

fn logged_in(id: &str, roles: Vec<Role>) -> UserState {
    UserState::LoggedIn { name: s("someone"), id: s(id), roles }
}

#[test]
fn anonymous_is_anon() {
    assert!(UserState::anonymous().is_anon());
    assert!(!logged_in("u1", vec![]).is_anon());
}

#[test]
fn deleted_content_hidden_from_anonymous() {
    let anon = UserState::anonymous();
    assert!(!anon.can_view_deleted("s1", "author"));
}

#[test]
fn deleted_content_hidden_from_unrelated_user() {
    let viewer = logged_in("u2", vec![]);
    assert!(!viewer.can_view_deleted("s1", "author"));
}

#[test]
fn deleted_content_visible_to_author() {
    let viewer = logged_in("author", vec![]);
    assert!(viewer.can_view_deleted("s1", "author"));
}

#[test]
fn deleted_content_visible_to_community_moderator() {
    let viewer = logged_in("u2", vec![Role::Mod(s("s1"), Level::Janitor)]);
    assert!(viewer.can_view_deleted("s1", "author"));
    // moderator of another community is turned away
    assert!(!viewer.can_view_deleted("s2", "author"));
}

#[test]
fn deleted_content_visible_to_site_admin() {
    let viewer = logged_in("u2", vec![Role::Admin]);
    assert!(viewer.can_view_deleted("s1", "author"));
}

#[test]
fn private_data_gated_for_strangers() {
    let owner = logged_in("u1", vec![]);
    assert_eq!(owner.private_user_data("u1"), Ok(()));
    let other = logged_in("u2", vec![]);
    assert_eq!(other.private_user_data("u1"), Err(LoadError::Unauthorized));
    let anon = UserState::anonymous();
    assert_eq!(anon.private_user_data("u1"), Err(LoadError::Unauthorized));
    let admin = logged_in("u3", vec![Role::Admin]);
    assert_eq!(admin.private_user_data("u1"), Ok(()));
}

#[test]
fn login_row_builds_roles_in_column_order() {
    let st = UserState::from_login_row(
        Some(s("alice")),
        s("u1"),
        vec![s("s1"), s("s2"), s("s3")],
        vec![0, 1, 7],
        false,
    );
    match st {
        UserState::LoggedIn { name, id, roles } => {
            assert_eq!(name, s("alice"));
            assert_eq!(id, s("u1"));
            assert_eq!(
                roles,
                vec![
                    Role::Mod(s("s1"), Level::Owner),
                    Role::Mod(s("s2"), Level::Mod),
                    Role::Mod(s("s3"), Level::Janitor),
                ]
            );
        }
        UserState::Anonymous => panic!("expected an identified principal"),
    }
}

#[test]
fn login_row_appends_admin_fact_last() {
    let st = UserState::from_login_row(None, s("u9"), vec![s("s1")], vec![1], true);
    match st {
        UserState::LoggedIn { name, id, roles } => {
            assert_eq!(name, s(""));
            assert_eq!(id, s("u9"));
            assert_eq!(roles, vec![Role::Mod(s("s1"), Level::Mod), Role::Admin]);
        }
        UserState::Anonymous => panic!("expected an identified principal"),
    }
}

#[test]
fn login_row_zips_to_shorter_column() {
    let st = UserState::from_login_row(Some(s("bob")), s("u2"), vec![s("s1"), s("s2")], vec![0], false);
    match st {
        UserState::LoggedIn { roles, .. } => {
            assert_eq!(roles, vec![Role::Mod(s("s1"), Level::Owner)]);
        }
        UserState::Anonymous => panic!("expected an identified principal"),
    }
}
