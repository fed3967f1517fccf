use vstd::prelude::*;

verus! {

use crate::LoadResult;
use crate::clone_opt_string;
use crate::opt_view;
use crate::Page;
use crate::keys::fold_of;
use crate::keys::fold_key;
use crate::loader::entry_views;
use crate::pager::build_page;
use crate::user::User;

/// An immutable snapshot of one community.  The creation time is seconds.
#[derive(Debug, PartialEq, Eq)]
pub struct Sub {
    pub sid: String,
    pub name: Option<String>,
    pub nsfw: bool,
    pub sidebar: String,
    pub title: Option<String>,
    pub creation: i64,
}

impl Clone for Sub {
    fn clone(&self) -> (r: Self)
        ensures
            r == *self,
    {
        Sub {
            sid: self.sid.clone(),
            name: clone_opt_string(&self.name),
            nsfw: self.nsfw,
            sidebar: self.sidebar.clone(),
            title: clone_opt_string(&self.title),
            creation: self.creation,
        }
    }
}

/// The mapping entries one community row contributes: the row under its
/// case-folded canonical key, and under its case-folded display name where
/// it has one, so a lookup by either succeeds.
pub open spec fn spec_sub_row_entries(s: Sub) -> Seq<(Seq<char>, LoadResult<Sub>)> {
    match s.name {
        Some(n) => seq![
            (fold_of(s.sid@), Ok::<Sub, crate::LoadError>(s)),
            (fold_of(n@), Ok::<Sub, crate::LoadError>(s)),
        ],
        None => seq![(fold_of(s.sid@), Ok::<Sub, crate::LoadError>(s))],
    }
}

/// The resolver mapping of one round trip's community rows, row by row.
pub open spec fn spec_sub_entries(rows: Seq<Sub>) -> Seq<(Seq<char>, LoadResult<Sub>)>
    decreases rows.len(),
{
    if rows.len() == 0 {
        Seq::empty()
    } else {
        spec_sub_row_entries(rows[0]) + spec_sub_entries(rows.subrange(1, rows.len() as int))
    }
}

/// The batch resolver for communities: rows come back well typed from the
/// store, and each is indexed under both its key and its folded name.
pub struct SubLoader;

impl SubLoader {
    /// Turn one round trip's rows into the resolver's returned mapping.
    /// Missing keys are synthesized by the loader, not here.
    pub fn resolve_rows(rows: Vec<Sub>) -> (r: Vec<(String, LoadResult<Sub>)>)
        ensures
            entry_views(r@) == spec_sub_entries(rows@),
    {
        let ghost rows0 = rows@;
        let mut rows = rows;
        let mut r: Vec<(String, LoadResult<Sub>)> = Vec::new();
        while rows.len() > 0
            invariant
                entry_views(r@) + spec_sub_entries(rows@) =~= spec_sub_entries(rows0),
            decreases rows@.len(),
        {
            let ghost rows_pre = rows@;
            let ghost r_pre = r@;
            let sub = rows.remove(0);
            let sid_key = fold_key(sub.sid.as_str());
            match &sub.name {
                Some(n) => {
                    let name_key = fold_key(n.as_str());
                    let copy = sub.clone();
                    r.push((sid_key, Ok(copy)));
                    r.push((name_key, Ok(sub)));
                },
                None => {
                    r.push((sid_key, Ok(sub)));
                },
            }
            proof {
                assert(rows@ =~= rows_pre.subrange(1, rows_pre.len() as int));
                assert(spec_sub_entries(rows_pre) == spec_sub_row_entries(rows_pre[0])
                    + spec_sub_entries(rows@));
                assert(entry_views(r@) =~= entry_views(r_pre) + spec_sub_row_entries(
                    rows_pre[0],
                ));
                assert(entry_views(r@) + spec_sub_entries(rows@) =~= spec_sub_entries(rows0));
            }
        }
        proof {
            assert(entry_views(r@) =~= spec_sub_entries(rows0));
        }
        r
    }
}

/// Assemble the top-level community listing page from one round trip's rows,
/// already windowed by the store: each row's cursor is its display name (or
/// empty), and a limit-sized page reports a successor.
pub fn subs_page(rows: Vec<Sub>, total_count: i32, limit: usize) -> (p: Page<Sub>)
    ensures
        p.total_count == total_count,
        p.edges@.len() == rows@.len(),
        forall|i: int|
            0 <= i < rows@.len() ==> p.edges@[i].node == rows@[i] && p.edges@[i].cursor@
                == opt_view(rows@[i].name),
        p.page_info.has_next_page == (rows@.len() == limit),
        rows@.len() > 0 ==> p.page_info.end_cursor@ == opt_view(rows@.last().name),
        rows@.len() == 0 ==> p.page_info.end_cursor@ == Seq::<char>::empty(),
{
    let mut cursors: Vec<String> = Vec::new();
    let mut i: usize = 0;
    while i < rows.len()
        invariant
            i <= rows@.len(),
            cursors@.len() == i,
            forall|j: int| 0 <= j < i ==> cursors@[j]@ == opt_view(rows@[j].name),
        decreases rows@.len() - i,
    {
        let c = match &rows[i].name {
            Some(n) => n.clone(),
            None => String::new(),
        };
        cursors.push(c);
        i += 1;
    }
    build_page(total_count, cursors, rows, limit)
}

/// The community members that resolved: the `Ok` payloads of a multi-key
/// user load, in load order, failures dropped.
pub open spec fn spec_ok_users(rs: Seq<LoadResult<User>>) -> Seq<User>
    decreases rs.len(),
{
    if rs.len() == 0 {
        Seq::empty()
    } else {
        (match rs[0] {
            Ok(u) => seq![u],
            Err(_) => Seq::<User>::empty(),
        }) + spec_ok_users(rs.subrange(1, rs.len() as int))
    }
}

/// The moderator listing keeps every user that loaded and drops per-key
/// failures, preserving order.
pub fn mods_from_results(results: Vec<LoadResult<User>>) -> (r: Vec<User>)
    ensures
        r@ == spec_ok_users(results@),
{
    let ghost rs0 = results@;
    let mut results = results;
    let mut r: Vec<User> = Vec::new();
    while results.len() > 0
        invariant
            r@ + spec_ok_users(results@) =~= spec_ok_users(rs0),
        decreases results@.len(),
    {
        let ghost rs_pre = results@;
        let ghost r_pre = r@;
        let head = results.remove(0);
        match head {
            Ok(u) => {
                r.push(u);
            },
            Err(_) => {},
        }
        proof {
            assert(results@ =~= rs_pre.subrange(1, rs_pre.len() as int));
            assert(spec_ok_users(rs_pre) == (match rs_pre[0] {
                Ok(u) => seq![u],
                Err(_) => Seq::<User>::empty(),
            }) + spec_ok_users(results@));
            assert(r@ + spec_ok_users(results@) =~= spec_ok_users(rs0));
        }
    }
    proof {
        assert(r@ =~= spec_ok_users(rs0));
    }
    r
}

impl Sub {
    /// The key under which this community is loaded: its folded identifier.
    pub fn key(&self) -> (r: String)
        ensures
            r@ == fold_of(self.sid@),
    {
        fold_key(self.sid.as_str())
    }

    pub fn name(&self) -> (r: &Option<String>)
        ensures
            *r == self.name,
    {
        &self.name
    }

    pub fn nsfw(&self) -> (r: bool)
        ensures
            r == self.nsfw,
    {
        self.nsfw
    }

    pub fn sidebar(&self) -> (r: &String)
        ensures
            *r == self.sidebar,
    {
        &self.sidebar
    }

    pub fn title(&self) -> (r: &Option<String>)
        ensures
            *r == self.title,
    {
        &self.title
    }

    pub fn creation(&self) -> (r: i64)
        ensures
            r == self.creation,
    {
        self.creation
    }
}

} // verus!
