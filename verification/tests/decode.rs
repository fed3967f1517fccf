use model::LoadError;
use model::auth::Level;
use model::auth::Role;
use model::auth::UserState;
use model::loader::Loader;
use model::post::DeleteStatus;
use model::post::Post;
use model::post::PostLoader;
use model::post::PostRow;
use model::post::PostType;
use model::post::decode_delete_status;
use model::post::decode_post_type;
use model::user::Crypto;
use model::user::UserLoader;
use model::user::UserRow;
use model::user::UserStatus;
use model::user::decode_user;

fn s(x: &str) -> String {
    x.to_string()
}

fn post_row(pid: i32, deleted: Option<i32>) -> PostRow {
    PostRow {
        pid,
        content: Some(s("body")),
        deleted,
        link: None,
        nsfw: None,
        posted: Some(1_000),
        edited: None,
        ptype: Some(0),
        sid: Some(s("s1")),
        thumbnail: None,
        title: Some(s("title")),
        uid: Some(s("author")),
        flair: None,
        comments: vec![],
        up_votes: Some(3),
        down_votes: Some(1),
    }
}

#[test]
fn delete_status_codes() {
    assert_eq!(decode_delete_status(None), Ok(DeleteStatus::Not));
    assert_eq!(decode_delete_status(Some(0)), Ok(DeleteStatus::Not));
    assert_eq!(decode_delete_status(Some(1)), Ok(DeleteStatus::User));
    assert_eq!(decode_delete_status(Some(2)), Ok(DeleteStatus::Mod));
    assert_eq!(decode_delete_status(Some(3)), Ok(DeleteStatus::Admin));
    assert_eq!(decode_delete_status(Some(9)), Err(LoadError::DecodeFailure));
}

#[test]
fn post_type_codes() {
    assert_eq!(decode_post_type(Some(0)), Ok(PostType::Text));
    assert_eq!(decode_post_type(Some(1)), Ok(PostType::Link));
    assert_eq!(decode_post_type(Some(3)), Ok(PostType::Poll));
    assert_eq!(decode_post_type(Some(2)), Err(LoadError::DecodeFailure));
    assert_eq!(decode_post_type(None), Err(LoadError::DecodeFailure));
}

#[test]
fn user_codes() {
    let row = |crypto: i32, status: i32| UserRow {
        uid: s("u1"),
        crypto,
        joindate: None,
        name: Some(s("alice")),
        email: None,
        password: None,
        score: 0,
        given: 0,
        status,
        resets: 0,
    };
    let u = decode_user(row(1, 0)).unwrap();
    assert_eq!(u.crypto, Crypto::BCrypt);
    assert_eq!(u.status, UserStatus::Active);
    let u = decode_user(row(2, 10)).unwrap();
    assert_eq!(u.crypto, Crypto::KeyCloak);
    assert_eq!(u.status, UserStatus::Deleted);
    let u = decode_user(row(1, 5)).unwrap();
    assert_eq!(u.status, UserStatus::SiteBan);
    assert_eq!(decode_user(row(7, 0)), Err(LoadError::DecodeFailure));
    assert_eq!(decode_user(row(1, 4)), Err(LoadError::DecodeFailure));
}

#[test]
fn decode_isolation_in_a_post_batch() {
    // five keys, one row with an unrecognized delete-status code:
    // four posts load, the bad row is its own DecodeFailure, nothing aborts
    let mut l: Loader<Post> = Loader::new();
    for k in ["1", "2", "3", "4", "5"] {
        l.request(&s(k));
    }
    let batch = l.take_batch();
    let rows = vec![
        post_row(1, Some(0)),
        post_row(2, Some(1)),
        post_row(3, Some(42)),
        post_row(4, None),
        post_row(5, Some(3)),
    ];
    l.complete(&batch, PostLoader::resolve_rows(rows));
    let out = l.get_many(&vec![s("1"), s("2"), s("3"), s("4"), s("5")]);
    assert_eq!(out.iter().filter(|r| r.is_ok()).count(), 4);
    assert_eq!(out[2], Err(LoadError::DecodeFailure));
    assert_eq!(out[1].as_ref().unwrap().deleted, DeleteStatus::User);
}

#[test]
fn post_rows_map_under_decimal_keys() {
    let entries = PostLoader::resolve_rows(vec![post_row(42, Some(0)), post_row(-7, Some(0))]);
    assert_eq!(entries.len(), 2);
    assert_eq!(entries[0].0, s("42"));
    assert_eq!(entries[1].0, s("-7"));
    assert!(entries[0].1.is_ok());
}

#[test]
fn post_votes_and_fields_carry_over() {
    let entries = PostLoader::resolve_rows(vec![post_row(1, Some(0))]);
    let p = entries[0].1.as_ref().unwrap();
    assert_eq!(p.up_votes, 3);
    assert_eq!(p.down_votes, 1);
    assert_eq!(p.score(), 2);
    assert_eq!(p.ptype, PostType::Text);
    assert_eq!(p.nsfw, false);
    assert_eq!(p.title, Some(s("title")));
    assert_eq!(p.id(), s("1"));
}

#[test]
fn deleted_post_content_redacted_by_viewer() {
    let entries = PostLoader::resolve_rows(vec![post_row(1, Some(2))]);
    let p = entries[0].1.as_ref().unwrap();
    let anon = UserState::anonymous();
    let stranger = UserState::LoggedIn { name: s("x"), id: s("u9"), roles: vec![] };
    let author = UserState::LoggedIn { name: s("a"), id: s("author"), roles: vec![] };
    let moderator = UserState::LoggedIn {
        name: s("m"),
        id: s("u5"),
        roles: vec![Role::Mod(s("s1"), Level::Mod)],
    };
    let admin = UserState::LoggedIn { name: s("r"), id: s("u6"), roles: vec![Role::Admin] };
    let other_mod = UserState::LoggedIn {
        name: s("o"),
        id: s("u7"),
        roles: vec![Role::Mod(s("other"), Level::Owner)],
    };
    assert_eq!(p.content(&anon), None);
    assert_eq!(p.content(&stranger), None);
    assert_eq!(p.content(&other_mod), None);
    assert_eq!(p.content(&author), Some(s("body")));
    assert_eq!(p.content(&moderator), Some(s("body")));
    assert_eq!(p.content(&admin), Some(s("body")));
}

#[test]
fn undeleted_post_content_visible_to_everyone() {
    let entries = PostLoader::resolve_rows(vec![post_row(1, None)]);
    let p = entries[0].1.as_ref().unwrap();
    assert_eq!(p.content(&UserState::anonymous()), Some(s("body")));
}

#[test]
fn user_decode_failure_is_per_row() {
    let good = UserRow {
        uid: s("u1"),
        crypto: 1,
        joindate: None,
        name: Some(s("Alice")),
        email: None,
        password: None,
        score: 1,
        given: 2,
        status: 0,
        resets: 0,
    };
    let bad = UserRow {
        uid: s("u2"),
        crypto: 99,
        joindate: None,
        name: Some(s("Bob")),
        email: None,
        password: None,
        score: 0,
        given: 0,
        status: 0,
        resets: 0,
    };
    let mut l: Loader<model::user::User> = Loader::new();
    l.request(&s("u1"));
    l.request(&s("u2"));
    let batch = l.take_batch();
    l.complete(&batch, UserLoader::resolve_rows(vec![good, bad]));
    assert!(l.get(&s("u1")).unwrap().is_ok());
    assert_eq!(l.get(&s("u2")).unwrap(), &Err(LoadError::DecodeFailure));
}
