use vstd::prelude::*;

verus! {

use crate::LoadError;
use crate::LoadResult;
use crate::Page;
use crate::auth::UserState;
use crate::clone_opt_string;
use crate::opt_view;
use crate::keys::clone_keys;
use crate::keys::fold_of;
use crate::keys::fold_key;
use crate::keys::i32_to_dec;
use crate::keys::int_rep;
use crate::loader::entry_views;

/// Soft-deletion tier of a post or comment.  The row stays; only its content
/// is redacted for viewers that the authorization gate turns away.
#[derive(Debug, Clone, Copy, PartialEq, Eq, Structural)]
pub enum DeleteStatus {
    Not,
    User,
    Mod,
    Admin,
}

/// What kind of post a row describes.
#[derive(Debug, Clone, Copy, PartialEq, Eq, Structural)]
pub enum PostType {
    Text,
    Link,
    Poll,
}

/// An immutable snapshot of one post, as one batch round trip produced it.
/// Relationships are carried as foreign keys -- the community key, the author
/// key, and the ordered top-level comment keys -- so that relationship fields
/// are loader calls, not embedded joins.  Times are seconds.
#[derive(Debug, PartialEq, Eq)]
pub struct Post {
    pub pid: i32,
    pub down_votes: i32,
    pub up_votes: i32,
    pub content: Option<String>,
    pub deleted: DeleteStatus,
    pub link: Option<String>,
    pub nsfw: bool,
    pub posted: Option<i64>,
    pub edited: Option<i64>,
    pub ptype: PostType,
    pub comments: Vec<String>,
    pub sid: Option<String>,
    pub thumbnail: Option<String>,
    pub title: Option<String>,
    pub uid: Option<String>,
    pub flair: Option<String>,
}

impl Clone for Post {
    /// An exact copy but for the comment-key list, which is element-exact:
    /// a fresh vector with the same keys.
    fn clone(&self) -> (r: Self)
        ensures
            r.pid == self.pid,
            r.down_votes == self.down_votes,
            r.up_votes == self.up_votes,
            r.content == self.content,
            r.deleted == self.deleted,
            r.link == self.link,
            r.nsfw == self.nsfw,
            r.posted == self.posted,
            r.edited == self.edited,
            r.ptype == self.ptype,
            r.comments@ == self.comments@,
            r.sid == self.sid,
            r.thumbnail == self.thumbnail,
            r.title == self.title,
            r.uid == self.uid,
            r.flair == self.flair,
    {
        Post {
            pid: self.pid,
            down_votes: self.down_votes,
            up_votes: self.up_votes,
            content: clone_opt_string(&self.content),
            deleted: self.deleted,
            link: clone_opt_string(&self.link),
            nsfw: self.nsfw,
            posted: self.posted,
            edited: self.edited,
            ptype: self.ptype,
            comments: clone_keys(&self.comments),
            sid: clone_opt_string(&self.sid),
            thumbnail: clone_opt_string(&self.thumbnail),
            title: clone_opt_string(&self.title),
            uid: clone_opt_string(&self.uid),
            flair: clone_opt_string(&self.flair),
        }
    }
}

/// The store's delete-status code: absent or zero means not deleted; one,
/// two and three are the user, moderator and admin tiers; anything else is
/// outside the known domain.
pub open spec fn spec_delete_status(code: Option<i32>) -> Option<DeleteStatus> {
    match code {
        None => Some(DeleteStatus::Not),
        Some(c) => if c == 0 {
            Some(DeleteStatus::Not)
        } else if c == 1 {
            Some(DeleteStatus::User)
        } else if c == 2 {
            Some(DeleteStatus::Mod)
        } else if c == 3 {
            Some(DeleteStatus::Admin)
        } else {
            None
        },
    }
}

/// The store's post-type code: zero is text, one is link, three is poll;
/// anything else -- an absent value too -- is outside the known domain.
pub open spec fn spec_post_type(code: Option<i32>) -> Option<PostType> {
    match code {
        Some(c) => if c == 0 {
            Some(PostType::Text)
        } else if c == 1 {
            Some(PostType::Link)
        } else if c == 3 {
            Some(PostType::Poll)
        } else {
            None
        },
        None => None,
    }
}

/// Decode one delete-status column; an unrecognized code is a decode failure
/// for that one row.
pub fn decode_delete_status(code: Option<i32>) -> (r: Result<DeleteStatus, LoadError>)
    ensures
        r == (match spec_delete_status(code) {
            Some(d) => Ok::<DeleteStatus, LoadError>(d),
            None => Err::<DeleteStatus, LoadError>(LoadError::DecodeFailure),
        }),
{
    match code {
        None => Ok(DeleteStatus::Not),
        Some(0) => Ok(DeleteStatus::Not),
        Some(1) => Ok(DeleteStatus::User),
        Some(2) => Ok(DeleteStatus::Mod),
        Some(3) => Ok(DeleteStatus::Admin),
        Some(_) => Err(LoadError::DecodeFailure),
    }
}

/// Decode one post-type column; an unrecognized code is a decode failure for
/// that one row.
pub fn decode_post_type(code: Option<i32>) -> (r: Result<PostType, LoadError>)
    ensures
        r == (match spec_post_type(code) {
            Some(t) => Ok::<PostType, LoadError>(t),
            None => Err::<PostType, LoadError>(LoadError::DecodeFailure),
        }),
{
    match code {
        Some(0) => Ok(PostType::Text),
        Some(1) => Ok(PostType::Link),
        Some(3) => Ok(PostType::Poll),
        _ => Err(LoadError::DecodeFailure),
    }
}

/// One raw post row as the store round trip hands it over: enumerated
/// columns still encoded, aggregates still optional.  The correlated
/// comment-key aggregate reads as the empty list where the store returned
/// none.
#[derive(Debug, PartialEq, Eq)]
pub struct PostRow {
    pub pid: i32,
    pub content: Option<String>,
    pub deleted: Option<i32>,
    pub link: Option<String>,
    pub nsfw: Option<bool>,
    pub posted: Option<i64>,
    pub edited: Option<i64>,
    pub ptype: Option<i32>,
    pub sid: Option<String>,
    pub thumbnail: Option<String>,
    pub title: Option<String>,
    pub uid: Option<String>,
    pub flair: Option<String>,
    pub comments: Vec<String>,
    pub up_votes: Option<i64>,
    pub down_votes: Option<i64>,
}

/// A vote aggregate, absent when no votes exist, narrowed to `i32`.
pub open spec fn spec_votes(v: Option<i64>) -> i32 {
    match v {
        Some(n) => n as i32,
        None => 0,
    }
}

/// The post a row decodes to, or the decode failure when either enumerated
/// column carries an unrecognized code.
pub open spec fn spec_decode_post(row: PostRow) -> LoadResult<Post> {
    if spec_post_type(row.ptype) is None || spec_delete_status(row.deleted) is None {
        Err(LoadError::DecodeFailure)
    } else {
        Ok(
            (Post {
                pid: row.pid,
                down_votes: spec_votes(row.down_votes),
                up_votes: spec_votes(row.up_votes),
                content: row.content,
                deleted: spec_delete_status(row.deleted)->Some_0,
                link: row.link,
                nsfw: (match row.nsfw {
                    Some(b) => b,
                    None => false,
                }),
                posted: row.posted,
                edited: row.edited,
                ptype: spec_post_type(row.ptype)->Some_0,
                comments: row.comments,
                sid: row.sid,
                thumbnail: row.thumbnail,
                title: row.title,
                uid: row.uid,
                flair: row.flair,
            }),
        )
    }
}

fn votes_of(v: Option<i64>) -> (r: i32)
    ensures
        r == spec_votes(v),
{
    match v {
        Some(n) => #[verifier::truncate] (n as i32),
        None => 0,
    }
}

/// Assemble one post from its raw row, applying the per-field decoding
/// rules.  A failure concerns this row alone and never its batch siblings.
pub fn decode_post(row: PostRow) -> (r: LoadResult<Post>)
    ensures
        r == spec_decode_post(row),
{
    let ptype = match decode_post_type(row.ptype) {
        Ok(t) => t,
        Err(e) => {
            return Err(e);
        },
    };
    let deleted = match decode_delete_status(row.deleted) {
        Ok(d) => d,
        Err(e) => {
            return Err(e);
        },
    };
    Ok(
        Post {
            pid: row.pid,
            down_votes: votes_of(row.down_votes),
            up_votes: votes_of(row.up_votes),
            content: row.content,
            deleted,
            link: row.link,
            nsfw: (match row.nsfw {
                Some(b) => b,
                None => false,
            }),
            posted: row.posted,
            edited: row.edited,
            ptype,
            comments: row.comments,
            sid: row.sid,
            thumbnail: row.thumbnail,
            title: row.title,
            uid: row.uid,
            flair: row.flair,
        },
    )
}

/// The batch resolver for posts: rows map back to per-key results under the
/// post's canonical decimal key.
pub struct PostLoader;

impl PostLoader {
    /// The mapping entry one raw row contributes.
    pub open spec fn spec_entry(row: PostRow) -> (Seq<char>, LoadResult<Post>) {
        (int_rep(row.pid as int), spec_decode_post(row))
    }

    /// Turn one round trip's rows into the resolver's returned mapping: one
    /// entry per row, keyed by the post's decimal key, decoded row by row so
    /// that one bad row fails alone.  Keys nobody requested are ignored and
    /// missing keys are synthesized by the loader, not here.
    pub fn resolve_rows(rows: Vec<PostRow>) -> (r: Vec<(String, LoadResult<Post>)>)
        ensures
            entry_views(r@) == rows@.map(|i: int, row: PostRow| PostLoader::spec_entry(row)),
    {
        let ghost rows0 = rows@;
        let mut rows = rows;
        let mut r: Vec<(String, LoadResult<Post>)> = Vec::new();
        while rows.len() > 0
            invariant
                r@.len() + rows@.len() == rows0.len(),
                rows@ =~= rows0.subrange(r@.len() as int, rows0.len() as int),
                forall|i: int|
                    0 <= i < r@.len() ==> entry_views(r@)[i] == PostLoader::spec_entry(rows0[i]),
            decreases rows@.len(),
        {
            let ghost r_pre = r@;
            let row = rows.remove(0);
            let key = i32_to_dec(row.pid);
            let res = decode_post(row);
            r.push((key, res));
            proof {
                assert(row == rows0[r_pre.len() as int]);
                assert forall|i: int| 0 <= i < r@.len() implies entry_views(r@)[i]
                    == PostLoader::spec_entry(rows0[i]) by {
                    if i < r_pre.len() {
                        assert(r@[i] == r_pre[i]);
                        assert(entry_views(r_pre)[i] == PostLoader::spec_entry(rows0[i]));
                    } else {
                        assert(r@[i] == (key, res));
                    }
                }
            }
        }
        proof {
            assert(entry_views(r@) =~= rows0.map(|i: int, row: PostRow| PostLoader::spec_entry(row)));
        }
        r
    }
}

impl Post {
    /// The post's canonical decimal key, under which the loader caches it.
    pub fn id(&self) -> (r: String)
        ensures
            r@ == int_rep(self.pid as int),
    {
        i32_to_dec(self.pid)
    }

    /// The content field, behind the deletion gate: a post that is not
    /// deleted shows its content to everyone; a soft-deleted post shows it
    /// only to viewers the authorization gate admits -- its author, a site
    /// administrator, or a moderator of its community -- and reads as absent
    /// to everyone else.
    pub fn content(&self, viewer: &UserState) -> (r: Option<String>)
        ensures
            r == (if self.deleted is Not || viewer.spec_can_view_deleted(
                opt_view(self.sid),
                opt_view(self.uid),
            ) {
                self.content
            } else {
                None::<String>
            }),
    {
        let sid: &str = match &self.sid {
            Some(s) => s.as_str(),
            None => "",
        };
        let uid: &str = match &self.uid {
            Some(s) => s.as_str(),
            None => "",
        };
        proof {
            reveal_strlit("");
            assert(sid@ == opt_view(self.sid));
            assert(uid@ == opt_view(self.uid));
        }
        let visible = match self.deleted {
            DeleteStatus::Not => true,
            _ => viewer.can_view_deleted(sid, uid),
        };
        proof {
            assert(visible == (self.deleted is Not || viewer.spec_can_view_deleted(
                opt_view(self.sid),
                opt_view(self.uid),
            )));
        }
        if visible {
            clone_opt_string(&self.content)
        } else {
            None
        }
    }

    /// The score is up votes less down votes.
    pub fn score(&self) -> (r: i32)
        requires
            i32::MIN <= self.up_votes - self.down_votes <= i32::MAX,
        ensures
            r == self.up_votes - self.down_votes,
    {
        self.up_votes - self.down_votes
    }

    /// The key under which the post's community is loaded, or `NotFound` for
    /// a post that is in no community.
    pub fn sub_key(&self) -> (r: Result<String, LoadError>)
        ensures
            (match self.sid {
                Some(s) => r matches Ok(k) && k@ == fold_of(s@),
                None => r == Err::<String, LoadError>(LoadError::NotFound),
            }),
    {
        match &self.sid {
            Some(s) => Ok(fold_key(s.as_str())),
            None => Err(LoadError::NotFound),
        }
    }

    /// The key under which the post's author is loaded, or `NotFound` for a
    /// post with no author.
    pub fn author_key(&self) -> (r: Result<String, LoadError>)
        ensures
            (match self.uid {
                Some(u) => r matches Ok(k) && k@ == fold_of(u@),
                None => r == Err::<String, LoadError>(LoadError::NotFound),
            }),
    {
        match &self.uid {
            Some(u) => Ok(fold_key(u.as_str())),
            None => Err(LoadError::NotFound),
        }
    }

    /// The window of child-comment keys that one page of this post's
    /// comments shows, resumed after the cursor.
    pub fn comment_window(&self, after: &String, limit: usize) -> (w: Vec<String>)
        ensures
            crate::loader::key_views(w@) == crate::pager::spec_window(
                crate::loader::key_views(self.comments@),
                after@,
                limit as nat,
            ),
    {
        crate::pager::window_keys(&self.comments, after, limit)
    }

    pub fn up_votes(&self) -> (r: i32)
        ensures
            r == self.up_votes,
    {
        self.up_votes
    }

    pub fn down_votes(&self) -> (r: i32)
        ensures
            r == self.down_votes,
    {
        self.down_votes
    }

    pub fn deleted(&self) -> (r: DeleteStatus)
        ensures
            r == self.deleted,
    {
        self.deleted
    }

    pub fn link(&self) -> (r: &Option<String>)
        ensures
            *r == self.link,
    {
        &self.link
    }

    pub fn nsfw(&self) -> (r: bool)
        ensures
            r == self.nsfw,
    {
        self.nsfw
    }

    pub fn posted(&self) -> (r: Option<i64>)
        ensures
            r == self.posted,
    {
        self.posted
    }

    pub fn edited(&self) -> (r: Option<i64>)
        ensures
            r == self.edited,
    {
        self.edited
    }

    pub fn post_type(&self) -> (r: PostType)
        ensures
            r == self.ptype,
    {
        self.ptype
    }

    pub fn thumbnail(&self) -> (r: &Option<String>)
        ensures
            *r == self.thumbnail,
    {
        &self.thumbnail
    }

    pub fn title(&self) -> (r: &Option<String>)
        ensures
            *r == self.title,
    {
        &self.title
    }

    pub fn flair(&self) -> (r: &Option<String>)
        ensures
            *r == self.flair,
    {
        &self.flair
    }

    /// How many comments the post has in all, independent of any window.
    pub fn comment_count(&self) -> (r: i32)
        requires
            self.comments@.len() <= i32::MAX,
        ensures
            r == self.comments@.len() as i32,
    {
        self.comments.len() as i32
    }
}

/// Where an index-cursored page resumes: at the beginning for an absent,
/// empty or malformed cursor, and right after the cursor's index otherwise.
pub open spec fn spec_page_start(after: Seq<char>) -> int {
    match crate::keys::int_val(after) {
        Some(v) => if 0 <= v <= i32::MAX {
            v + 1
        } else {
            0
        },
        None => 0,
    }
}

/// The first candidate index of the next page of an index-cursored listing.
pub fn page_start(after: &Option<String>) -> (r: usize)
    ensures
        r == (match *after {
            Some(s) => spec_page_start(s@),
            None => 0int,
        }),
{
    match after {
        Some(s) => match crate::keys::parse_i32(s.as_str()) {
            Some(v) => if v >= 0 {
                (v as usize) + 1
            } else {
                0
            },
            None => 0,
        },
        None => 0,
    }
}

/// Assemble one page of a post listing from the rows of one store round
/// trip, already windowed to at most the limit starting at `start`.  Rows
/// decode one by one -- a bad row yields its own failed edge and never spoils
/// the page -- and each edge's cursor is its absolute index, so the next
/// request can resume right after it.
pub fn related_page(rows: Vec<PostRow>, start: usize, limit: usize, total_count: i32) -> (p: Page<
    LoadResult<Post>,
>)
    requires
        start + rows@.len() <= u32::MAX,
    ensures
        p.total_count == total_count,
        p.edges@.len() == rows@.len(),
        forall|i: int|
            0 <= i < rows@.len() ==> p.edges@[i].node == spec_decode_post(rows@[i])
                && p.edges@[i].cursor@ == crate::keys::dec_rep((start + i) as nat),
        p.page_info.has_next_page == (rows@.len() == limit),
        rows@.len() > 0 ==> p.page_info.end_cursor@ == crate::keys::dec_rep(
            (start + rows@.len() - 1) as nat,
        ),
        rows@.len() == 0 ==> p.page_info.end_cursor@ == Seq::<char>::empty(),
{
    let ghost rows0 = rows@;
    let mut rows = rows;
    let mut cursors: Vec<String> = Vec::new();
    let mut nodes: Vec<LoadResult<Post>> = Vec::new();
    let n = rows.len();
    let mut i: usize = 0;
    while i < n
        invariant
            i <= n,
            n == rows0.len(),
            start + n <= u32::MAX,
            cursors@.len() == i,
            nodes@.len() == i,
            rows@ =~= rows0.subrange(i as int, rows0.len() as int),
            forall|j: int|
                0 <= j < i ==> nodes@[j] == spec_decode_post(rows0[j]) && cursors@[j]@
                    == crate::keys::dec_rep((start + j) as nat),
        decreases n - i,
    {
        let ghost c_pre = cursors@;
        let ghost n_pre = nodes@;
        let row = rows.remove(0);
        let cursor = crate::keys::u32_to_dec((start + i) as u32);
        let res = decode_post(row);
        cursors.push(cursor);
        nodes.push(res);
        proof {
            assert(row == rows0[i as int]);
            assert forall|j: int|
                0 <= j < i + 1 implies nodes@[j] == spec_decode_post(rows0[j]) && cursors@[j]@
                == crate::keys::dec_rep((start + j) as nat) by {
                if j < i {
                    assert(nodes@[j] == n_pre[j] && cursors@[j] == c_pre[j]);
                }
            }
        }
        i += 1;
    }
    let ghost cs = cursors@;
    let ghost ns = nodes@;
    let p = crate::pager::build_page(total_count, cursors, nodes, limit);
    proof {
        assert forall|j: int|
            0 <= j < rows0.len() implies p.edges@[j].node == spec_decode_post(rows0[j])
            && p.edges@[j].cursor@ == crate::keys::dec_rep((start + j) as nat) by {
            assert(p.edges@[j].node == ns[j]);
            assert(p.edges@[j].cursor@ == cs[j]@);
        }
        if rows0.len() > 0 {
            let j: int = rows0.len() - 1;
            assert(p.edges@[j].node == ns[j]);
            assert(p.edges@[j].cursor@ == cs[j]@);
            assert(p.page_info.end_cursor@ == cs.last()@);
            assert(cs.last() == cs[j]);
            assert(cs[j]@ == crate::keys::dec_rep((start + j) as nat));
        }
    }
    p
}

/// Where the home feed's candidate communities come from: the site's default
/// set for an anonymous viewer, the subscriptions of the identified user
/// otherwise.
#[derive(Debug)]
pub enum HomeSource {
    SiteDefaults,
    Subscriptions(String),
}

/// The decision of the home-posts listing: which candidate source the one
/// store round trip should query, given the principal.
pub fn home_source(user: &UserState) -> (r: HomeSource)
    ensures
        (match *user {
            UserState::Anonymous => r is SiteDefaults,
            UserState::LoggedIn { id, .. } => r matches HomeSource::Subscriptions(u) && u@ == id@,
        }),
{
    match user {
        UserState::Anonymous => HomeSource::SiteDefaults,
        UserState::LoggedIn { id, .. } => HomeSource::Subscriptions(id.clone()),
    }
}

} // verus!
