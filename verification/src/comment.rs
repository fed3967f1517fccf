use vstd::prelude::*;

verus! {

use crate::LoadError;
use crate::clone_opt_string;
use crate::LoadResult;
use crate::keys::clone_keys;
use crate::keys::fold_of;
use crate::keys::fold_key;
use crate::keys::i32_to_dec;
use crate::keys::int_rep;
use crate::loader::entry_views;
use crate::post::DeleteStatus;
use crate::post::spec_delete_status;
use crate::post::decode_delete_status;

/// An immutable snapshot of one comment.  The thread structure is carried as
/// keys -- the parent comment, the owning post, the ordered child keys -- so
/// that thread fields are loader calls.  Times are seconds.
#[derive(Debug, PartialEq, Eq)]
pub struct Comment {
    pub cid: String,
    pub content: Option<String>,
    pub last_edit: Option<i64>,
    pub parent_cid: Option<String>,
    pub children: Vec<String>,
    pub pid: Option<i32>,
    pub score: Option<i32>,
    pub up_votes: i32,
    pub down_votes: i32,
    pub status: DeleteStatus,
    pub time: Option<i64>,
    pub uid: Option<String>,
}

impl Clone for Comment {
    /// An exact copy but for the child-key list, which is element-exact: a
    /// fresh vector with the same keys.
    fn clone(&self) -> (r: Self)
        ensures
            r.cid == self.cid,
            r.content == self.content,
            r.last_edit == self.last_edit,
            r.parent_cid == self.parent_cid,
            r.children@ == self.children@,
            r.pid == self.pid,
            r.score == self.score,
            r.up_votes == self.up_votes,
            r.down_votes == self.down_votes,
            r.status == self.status,
            r.time == self.time,
            r.uid == self.uid,
    {
        Comment {
            cid: self.cid.clone(),
            content: clone_opt_string(&self.content),
            last_edit: self.last_edit,
            parent_cid: clone_opt_string(&self.parent_cid),
            children: clone_keys(&self.children),
            pid: self.pid,
            score: self.score,
            up_votes: self.up_votes,
            down_votes: self.down_votes,
            status: self.status,
            time: self.time,
            uid: clone_opt_string(&self.uid),
        }
    }
}

/// One raw comment row as the store round trip hands it over: the
/// delete-status column still encoded, the child aggregate read as the empty
/// list where the store returned none.
#[derive(Debug, PartialEq, Eq)]
pub struct CommentRow {
    pub cid: String,
    pub content: Option<String>,
    pub lastedit: Option<i64>,
    pub parentcid: Option<String>,
    pub pid: Option<i32>,
    pub score: Option<i32>,
    pub upvotes: i32,
    pub downvotes: i32,
    pub status: Option<i32>,
    pub time: Option<i64>,
    pub uid: Option<String>,
    pub children: Vec<String>,
}

/// The comment a row decodes to, or the decode failure when its status
/// column carries an unrecognized code.
pub open spec fn spec_decode_comment(row: CommentRow) -> LoadResult<Comment> {
    if spec_delete_status(row.status) is None {
        Err(LoadError::DecodeFailure)
    } else {
        Ok(
            (Comment {
                cid: row.cid,
                content: row.content,
                last_edit: row.lastedit,
                parent_cid: row.parentcid,
                children: row.children,
                pid: row.pid,
                score: row.score,
                up_votes: row.upvotes,
                down_votes: row.downvotes,
                status: spec_delete_status(row.status)->Some_0,
                time: row.time,
                uid: row.uid,
            }),
        )
    }
}

/// Assemble one comment from its raw row.  A failure concerns this row alone
/// and never its batch siblings.
pub fn decode_comment(row: CommentRow) -> (r: LoadResult<Comment>)
    ensures
        r == spec_decode_comment(row),
{
    let status = match decode_delete_status(row.status) {
        Ok(d) => d,
        Err(e) => {
            return Err(e);
        },
    };
    Ok(
        Comment {
            cid: row.cid,
            content: row.content,
            last_edit: row.lastedit,
            parent_cid: row.parentcid,
            children: row.children,
            pid: row.pid,
            score: row.score,
            up_votes: row.upvotes,
            down_votes: row.downvotes,
            status,
            time: row.time,
            uid: row.uid,
        },
    )
}

/// The batch resolver for comments: rows map back to per-key results under
/// the comment's own key.
pub struct CommentLoader;

impl CommentLoader {
    /// The mapping entry one raw row contributes.
    pub open spec fn spec_entry(row: CommentRow) -> (Seq<char>, LoadResult<Comment>) {
        (row.cid@, spec_decode_comment(row))
    }

    /// Turn one round trip's rows into the resolver's returned mapping: one
    /// entry per row, keyed by the comment key, decoded row by row so that
    /// one bad row fails alone.  Missing keys are synthesized by the loader,
    /// not here.
    pub fn resolve_rows(rows: Vec<CommentRow>) -> (r: Vec<(String, LoadResult<Comment>)>)
        ensures
            entry_views(r@) == rows@.map(|i: int, row: CommentRow| CommentLoader::spec_entry(row)),
    {
        let ghost rows0 = rows@;
        let mut rows = rows;
        let mut r: Vec<(String, LoadResult<Comment>)> = Vec::new();
        while rows.len() > 0
            invariant
                r@.len() + rows@.len() == rows0.len(),
                rows@ =~= rows0.subrange(r@.len() as int, rows0.len() as int),
                forall|i: int|
                    0 <= i < r@.len() ==> entry_views(r@)[i] == CommentLoader::spec_entry(rows0[i]),
            decreases rows@.len(),
        {
            let ghost r_pre = r@;
            let row = rows.remove(0);
            let key = row.cid.clone();
            let res = decode_comment(row);
            r.push((key, res));
            proof {
                assert(row == rows0[r_pre.len() as int]);
                assert forall|i: int| 0 <= i < r@.len() implies entry_views(r@)[i]
                    == CommentLoader::spec_entry(rows0[i]) by {
                    if i < r_pre.len() {
                        assert(r@[i] == r_pre[i]);
                        assert(entry_views(r_pre)[i] == CommentLoader::spec_entry(rows0[i]));
                    } else {
                        assert(r@[i] == (key, res));
                    }
                }
            }
        }
        proof {
            assert(entry_views(r@) =~= rows0.map(
                |i: int, row: CommentRow| CommentLoader::spec_entry(row),
            ));
        }
        r
    }
}

impl Comment {
    /// The comment's own key, under which the loader caches it.
    pub fn cid(&self) -> (r: String)
        ensures
            r == self.cid,
    {
        self.cid.clone()
    }

    pub fn content(&self) -> (r: Option<String>)
        ensures
            r == self.content,
    {
        clone_opt_string(&self.content)
    }

    pub fn last_edit(&self) -> (r: Option<i64>)
        ensures
            r == self.last_edit,
    {
        self.last_edit
    }

    /// The parent comment's key, where this comment is a reply.
    pub fn parent(&self) -> (r: &Option<String>)
        ensures
            *r == self.parent_cid,
    {
        &self.parent_cid
    }

    pub fn score(&self) -> (r: Option<i32>)
        ensures
            r == self.score,
    {
        self.score
    }

    pub fn up_votes(&self) -> (r: i32)
        ensures
            r == self.up_votes,
    {
        self.up_votes
    }

    pub fn down_votes(&self) -> (r: i32)
        ensures
            r == self.down_votes,
    {
        self.down_votes
    }

    pub fn time(&self) -> (r: Option<i64>)
        ensures
            r == self.time,
    {
        self.time
    }

    /// The key under which the owning post is loaded, or `NotFound` for a
    /// comment related to no post.
    pub fn post_key(&self) -> (r: Result<String, LoadError>)
        ensures
            (match self.pid {
                Some(p) => r matches Ok(k) && k@ == int_rep(p as int),
                None => r == Err::<String, LoadError>(LoadError::NotFound),
            }),
    {
        match self.pid {
            Some(p) => Ok(i32_to_dec(p)),
            None => Err(LoadError::NotFound),
        }
    }

    /// The key under which the comment's author is loaded, or `NotFound` for
    /// a comment with no author.
    pub fn author_key(&self) -> (r: Result<String, LoadError>)
        ensures
            (match self.uid {
                Some(u) => r matches Ok(k) && k@ == fold_of(u@),
                None => r == Err::<String, LoadError>(LoadError::NotFound),
            }),
    {
        match &self.uid {
            Some(u) => Ok(fold_key(u.as_str())),
            None => Err(LoadError::NotFound),
        }
    }

    /// The window of child-comment keys that one page of this comment's
    /// thread shows, resumed after the cursor.
    pub fn child_window(&self, after: &String, limit: usize) -> (w: Vec<String>)
        ensures
            crate::loader::key_views(w@) == crate::pager::spec_window(
                crate::loader::key_views(self.children@),
                after@,
                limit as nat,
            ),
    {
        crate::pager::window_keys(&self.children, after, limit)
    }

    /// How many children the comment has in all, independent of any window.
    pub fn child_count(&self) -> (r: i32)
        requires
            self.children@.len() <= i32::MAX,
        ensures
            r == self.children@.len() as i32,
    {
        self.children.len() as i32
    }
}

} // verus!
