//! Which pages a migration takes: one page by id, or a database query.
use vstd::prelude::*;
use crate::text::{push_str, string_of};

verus! {

/// The query that selects pages of a database: those whose checkbox
/// `filter_property` equals `filter_checked`, sorted by `sort_property`,
/// at most `page_size` of them.
pub struct DatabaseQuery {
    pub filter_property: String,
    pub filter_checked: bool,
    pub sort_property: String,
    pub descending: bool,
    pub page_size: u32,
}

/// The checkbox that marks a page as migrated.
pub open spec fn migrated_property() -> Seq<char> {
    "移行済み"@
}

/// The property that holds a page's creation time.
pub open spec fn created_property() -> Seq<char> {
    "作成日時"@
}

/// Selects the not yet migrated pages of a database, newest first.
pub struct DatabasePageProvider {
    database_id: String,
    limit: usize,
}

impl DatabasePageProvider {
    /// The id of the database queried.
    pub closed spec fn spec_database_id(&self) -> Seq<char> {
        self.database_id@
    }

    /// The most pages asked for.
    pub closed spec fn spec_limit(&self) -> usize {
        self.limit
    }

    /// A provider for the database `database_id`, taking at most `limit` pages.
    pub fn new(database_id: String, limit: usize) -> (r: Self)
        ensures
            r.spec_database_id() == database_id@,
            r.spec_limit() == limit,
    {
        Self { database_id, limit }
    }

    /// The id of the database queried.
    pub fn database_id(&self) -> (r: &String)
        ensures
            r@ == self.spec_database_id(),
    {
        &self.database_id
    }

    /// The query for the pages: unmigrated ones, newest first, at most the
    /// limit.
    pub fn build_query(&self) -> (q: DatabaseQuery)
        requires
            self.spec_limit() <= u32::MAX,
        ensures
            q.filter_property@ == migrated_property(),
            !q.filter_checked,
            q.sort_property@ == created_property(),
            q.descending,
            q.page_size == self.spec_limit(),
    {
        let mut f: Vec<char> = Vec::new();
        push_str(&mut f, "移行済み");
        let mut s: Vec<char> = Vec::new();
        push_str(&mut s, "作成日時");
        DatabaseQuery {
            filter_property: string_of(f.as_slice()),
            filter_checked: false,
            sort_property: string_of(s.as_slice()),
            descending: true,
            page_size: self.limit as u32,
        }
    }

    /// The most pages asked for.
    pub fn limit(&self) -> (r: usize)
        ensures
            r == self.spec_limit(),
    {
        self.limit
    }
}

/// Selects a single page by id.
pub struct SinglePageProvider {
    page_id: String,
}

impl SinglePageProvider {
    /// The id of the page taken.
    pub closed spec fn spec_page_id(&self) -> Seq<char> {
        self.page_id@
    }

    /// A provider for the page `page_id`.
    pub fn new(page_id: String) -> (r: Self)
        ensures
            r.spec_page_id() == page_id@,
    {
        Self { page_id }
    }

    /// The id of the page taken.
    pub fn page_id(&self) -> (r: &String)
        ensures
            r@ == self.spec_page_id(),
    {
        &self.page_id
    }
}

} // verus!
