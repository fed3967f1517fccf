use model::LoadError;
use model::Context;
use model::Query;
use model::auth::UserState;
use model::keys::fold_key;
use model::keys::i32_to_dec;
use model::keys::parse_i32;
use model::loader::Loader;
use model::post::HomeSource;
use model::post::home_source;
use model::post::page_start;
use model::post::related_page;
use model::sub::Sub;
use model::sub::SubLoader;
use model::sub::mods_from_results;
use model::sub::subs_page;
use model::user::User;
use model::user::UserLoader;
use model::user::UserRow;

fn s(x: &str) -> String {
    x.to_string()
}

#[test]
fn api_version_tag() {
    assert_eq!(Query::apiVersion(), "1.0");
}

#[test]
fn fresh_context_has_empty_loaders() {
    let mut c = Context::new(UserState::anonymous());
    assert!(c.user.is_anon());
    assert!(c.sub_loader.take_batch().is_empty());
    assert!(c.post_loader.take_batch().is_empty());
    assert!(c.user_loader.take_batch().is_empty());
    assert!(c.comment_loader.take_batch().is_empty());
}

#[test]
fn decimal_keys_render_canonically() {
    assert_eq!(i32_to_dec(0), s("0"));
    assert_eq!(i32_to_dec(7), s("7"));
    assert_eq!(i32_to_dec(1234), s("1234"));
    assert_eq!(i32_to_dec(-13), s("-13"));
    assert_eq!(i32_to_dec(i32::MAX), s("2147483647"));
    assert_eq!(i32_to_dec(i32::MIN), s("-2147483648"));
}

#[test]
fn decimal_keys_parse_back() {
    assert_eq!(parse_i32("0"), Some(0));
    assert_eq!(parse_i32("1234"), Some(1234));
    assert_eq!(parse_i32("-13"), Some(-13));
    assert_eq!(parse_i32("007"), Some(7));
    assert_eq!(parse_i32("2147483647"), Some(i32::MAX));
    assert_eq!(parse_i32("-2147483648"), Some(i32::MIN));
    assert_eq!(parse_i32("2147483648"), None);
    assert_eq!(parse_i32(""), None);
    assert_eq!(parse_i32("-"), None);
    assert_eq!(parse_i32("12a"), None);
    assert_eq!(parse_i32("99999999999999999999"), None);
}

#[test]
fn case_folding_canonicalizes_names() {
    assert_eq!(fold_key("MiXeDcAsE"), s("mixedcase"));
    assert_eq!(fold_key("already"), s("already"));
    assert_eq!(fold_key(""), s(""));
}

fn sub_row(sid: &str, name: Option<&str>) -> Sub {
    Sub {
        sid: s(sid),
        name: name.map(s),
        nsfw: false,
        sidebar: s("welcome"),
        title: None,
        creation: 1_600_000_000,
    }
}

#[test]
fn community_addressable_by_key_and_by_name_case_insensitively() {
    let mut l: Loader<Sub> = Loader::new();
    // a client asks by display name in another casing
    l.request(&fold_key("RustTalk"));
    let batch = l.take_batch();
    l.complete(&batch, SubLoader::resolve_rows(vec![sub_row("s1", Some("rusttalk"))]));
    let got = l.get(&fold_key("RustTalk")).unwrap();
    assert_eq!(got.as_ref().unwrap().sid, s("s1"));

    let mut l2: Loader<Sub> = Loader::new();
    l2.request(&fold_key("S1"));
    let batch = l2.take_batch();
    l2.complete(&batch, SubLoader::resolve_rows(vec![sub_row("s1", Some("rusttalk"))]));
    assert!(l2.get(&fold_key("S1")).unwrap().is_ok());
}

#[test]
fn unknown_community_synthesizes_not_found() {
    let mut l: Loader<Sub> = Loader::new();
    l.request(&fold_key("nosuch"));
    let batch = l.take_batch();
    l.complete(&batch, SubLoader::resolve_rows(vec![]));
    assert_eq!(l.get(&fold_key("nosuch")).unwrap(), &Err(LoadError::NotFound));
}

#[test]
fn subs_listing_page_uses_names_as_cursors() {
    let rows = vec![sub_row("s1", Some("alpha")), sub_row("s2", Some("beta"))];
    let p = subs_page(rows, 9, 2);
    assert_eq!(p.total_count, 9);
    assert_eq!(p.edges.len(), 2);
    assert_eq!(p.edges[0].cursor, s("alpha"));
    assert_eq!(p.edges[1].cursor, s("beta"));
    assert_eq!(p.edges[1].node.sid, s("s2"));
    assert!(p.page_info.has_next_page);
    assert_eq!(p.page_info.end_cursor, s("beta"));
}

#[test]
fn subs_listing_short_page_has_no_next() {
    let p = subs_page(vec![sub_row("s1", None)], 1, 50);
    assert!(!p.page_info.has_next_page);
    assert_eq!(p.edges[0].cursor, s(""));
}

fn user_row(uid: &str, name: Option<&str>) -> UserRow {
    UserRow {
        uid: s(uid),
        crypto: 1,
        joindate: None,
        name: name.map(s),
        email: Some(s("a@example.org")),
        password: None,
        score: 0,
        given: 0,
        status: 0,
        resets: 3,
    }
}

#[test]
fn user_addressable_by_name_any_casing() {
    let mut l: Loader<User> = Loader::new();
    l.request(&fold_key("ALICE"));
    let batch = l.take_batch();
    l.complete(&batch, UserLoader::resolve_rows(vec![user_row("u1", Some("Alice"))]));
    let got = l.get(&fold_key("ALICE")).unwrap();
    assert_eq!(got.as_ref().unwrap().uid, s("u1"));
}

#[test]
fn private_user_fields_gated() {
    let entries = UserLoader::resolve_rows(vec![user_row("u1", Some("Alice"))]);
    let u = entries[0].1.as_ref().unwrap();
    let stranger = UserState::LoggedIn { name: s("x"), id: s("u2"), roles: vec![] };
    let owner = UserState::LoggedIn { name: s("a"), id: s("u1"), roles: vec![] };
    assert_eq!(u.email(&stranger), Err(LoadError::Unauthorized));
    assert_eq!(u.resets(&stranger), Err(LoadError::Unauthorized));
    assert_eq!(u.crypto(&stranger), Err(LoadError::Unauthorized));
    assert_eq!(u.email(&UserState::anonymous()), Err(LoadError::Unauthorized));
    assert_eq!(u.email(&owner), Ok(Some(s("a@example.org"))));
    assert_eq!(u.resets(&owner), Ok(3));
    let admin = UserState::LoggedIn {
        name: s("r"),
        id: s("u9"),
        roles: vec![model::auth::Role::Admin],
    };
    assert_eq!(u.resets(&admin), Ok(3));
}

#[test]
fn moderator_listing_keeps_loaded_users_only() {
    let e1 = UserLoader::resolve_rows(vec![user_row("u1", None)]);
    let e2 = UserLoader::resolve_rows(vec![user_row("u2", None)]);
    let u1 = e1[0].1.clone();
    let u2 = e2[0].1.clone();
    let mods = mods_from_results(vec![u1, Err(LoadError::NotFound), u2]);
    assert_eq!(mods.len(), 2);
    assert_eq!(mods[0].uid, s("u1"));
    assert_eq!(mods[1].uid, s("u2"));
}

#[test]
fn home_feed_source_follows_principal() {
    assert!(matches!(home_source(&UserState::anonymous()), HomeSource::SiteDefaults));
    let st = UserState::LoggedIn { name: s("a"), id: s("u1"), roles: vec![] };
    match home_source(&st) {
        HomeSource::Subscriptions(id) => assert_eq!(id, s("u1")),
        HomeSource::SiteDefaults => panic!("expected the subscription source"),
    }
}

#[test]
fn index_cursors_resume_after_position() {
    assert_eq!(page_start(&None), 0);
    assert_eq!(page_start(&Some(s(""))), 0);
    assert_eq!(page_start(&Some(s("0"))), 1);
    assert_eq!(page_start(&Some(s("24"))), 25);
    assert_eq!(page_start(&Some(s("junk"))), 0);
    assert_eq!(page_start(&Some(s("-3"))), 0);
}

fn plain_post_row(pid: i32) -> model::post::PostRow {
    model::post::PostRow {
        pid,
        content: None,
        deleted: None,
        link: None,
        nsfw: None,
        posted: None,
        edited: None,
        ptype: Some(1),
        sid: None,
        thumbnail: None,
        title: None,
        uid: None,
        flair: None,
        comments: vec![],
        up_votes: None,
        down_votes: None,
    }
}

#[test]
fn related_posts_page_indexes_absolutely() {
    let rows = vec![plain_post_row(10), plain_post_row(11)];
    let p = related_page(rows, 4, 2, 7);
    assert_eq!(p.edges[0].cursor, s("4"));
    assert_eq!(p.edges[1].cursor, s("5"));
    assert!(p.edges[0].node.is_ok());
    assert!(p.page_info.has_next_page);
    assert_eq!(p.page_info.end_cursor, s("5"));
    assert_eq!(p.total_count, 7);
    // resuming after the reported end cursor lands on the next row
    assert_eq!(page_start(&Some(p.page_info.end_cursor.clone())), 6);
}

#[test]
fn related_posts_bad_row_fails_alone() {
    let mut bad = plain_post_row(12);
    bad.ptype = Some(2);
    let rows = vec![plain_post_row(10), bad];
    let p = related_page(rows, 0, 25, 2);
    assert!(p.edges[0].node.is_ok());
    assert_eq!(p.edges[1].node, Err(LoadError::DecodeFailure));
    assert!(!p.page_info.has_next_page);
}
