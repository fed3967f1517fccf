pub mod auth;
pub mod comment;
pub mod keys;
pub mod loader;
pub mod pager;
pub mod post;
pub mod sub;
pub mod user;

use vstd::prelude::*;

verus! {

/// The per-key failure taxonomy of the loading layer.  Errors are values
/// attached to the one key (or field) that produced them; they never abort
/// sibling keys of the same batch.
#[derive(Clone, Copy, Debug, PartialEq, Eq, Structural)]
pub enum LoadError {
    /// The requested key is absent from the store.
    NotFound,
    /// The row for this key carried an enumerated column value outside the
    /// known domain; treated like `NotFound` for that one row.
    DecodeFailure,
    /// A gated field was read by a principal lacking permission.
    Unauthorized,
    /// The store round trip itself failed; every key of that batch gets this.
    StoreUnavailable,
}

/// Per-key outcome of a load: the entity, or a typed failure.
pub type LoadResult<V> = Result<V, LoadError>;

/// A string's characters, with an absent string reading as empty.
pub open spec fn opt_view(o: Option<String>) -> Seq<char> {
    match o {
        Some(s) => s@,
        None => Seq::<char>::empty(),
    }
}

/// An element-exact copy of an optional string.
pub fn clone_opt_string(o: &Option<String>) -> (r: Option<String>)
    ensures
        r == *o,
{
    match o {
        Some(s) => Some(s.clone()),
        None => None,
    }
}

/// One element of a paginated collection: the node together with the opaque
/// cursor that marks its position, from which a later request can resume.
#[derive(Debug)]
pub struct Edge<T> {
    pub node: T,
    pub cursor: String,
}

/// Whether a page appears to have a successor, and the cursor to resume
/// after.  `has_next_page` compares the taken count against the limit, so a
/// limit-sized final page reports a successor that the next (empty) page
/// disproves.
#[derive(Debug)]
pub struct PageInfo {
    pub has_next_page: bool,
    pub end_cursor: String,
}

/// One window of an ordered collection.  `total_count` covers the whole
/// candidate set, independent of the requested window.
#[derive(Debug)]
pub struct Page<T> {
    pub total_count: i32,
    pub edges: Vec<Edge<T>>,
    pub page_info: PageInfo,
}

impl<T> Edge<T> {
    pub fn node(&self) -> (r: &T)
        ensures
            *r == self.node,
    {
        &self.node
    }

    pub fn cursor(&self) -> (r: &String)
        ensures
            r == self.cursor,
    {
        &self.cursor
    }
}

/// One request's state: the resolved principal and one loader per entity
/// kind.  Created once per inbound request and discarded with it; nothing in
/// it is shared across requests, so a loader's cache never outlives or leaks
/// beyond its request.
pub struct Context {
    pub user: auth::UserState,
    pub sub_loader: loader::Loader<sub::Sub>,
    pub user_loader: loader::Loader<user::User>,
    pub post_loader: loader::Loader<post::Post>,
    pub comment_loader: loader::Loader<comment::Comment>,
}

impl Context {
    /// A fresh request context: the given principal, and four empty,
    /// well-formed loaders.
    pub fn new(user: auth::UserState) -> (c: Context)
        ensures
            c.user == user,
            c.sub_loader@.cache.len() == 0 && c.sub_loader@.pending.len() == 0
                && c.sub_loader@.wf(),
            c.user_loader@.cache.len() == 0 && c.user_loader@.pending.len() == 0
                && c.user_loader@.wf(),
            c.post_loader@.cache.len() == 0 && c.post_loader@.pending.len() == 0
                && c.post_loader@.wf(),
            c.comment_loader@.cache.len() == 0 && c.comment_loader@.pending.len() == 0
                && c.comment_loader@.wf(),
    {
        Context {
            user,
            sub_loader: loader::Loader::new(),
            user_loader: loader::Loader::new(),
            post_loader: loader::Loader::new(),
            comment_loader: loader::Loader::new(),
        }
    }
}

/// The query root.  Its resolvable fields hand work to the loaders through
/// the context; the version tag is the one field it answers by itself.
pub struct Query;

impl Query {
    #[allow(non_snake_case)]
    pub fn apiVersion() -> (r: &'static str)
        ensures
            r@ == "1.0"@,
    {
        "1.0"
    }
}

/// The mutation root: this layer is read-only, so it is empty.
pub struct Mutation;

impl<T> Page<T> {
    pub fn edges(&self) -> (r: &Vec<Edge<T>>)
        ensures
            r == self.edges,
    {
        &self.edges
    }

    pub fn page_info(&self) -> (r: &PageInfo)
        ensures
            *r == self.page_info,
    {
        &self.page_info
    }

    pub fn total_count(&self) -> (r: i32)
        ensures
            r == self.total_count,
    {
        self.total_count
    }
}

} // verus!
