//! The federated query planner: typed queries compiled into index searches
//! and the combination of their hits.

use vstd::prelude::*;
use crate::schema::{FileCategory, category_keyword};
use crate::text::{concat, joined, join_strings, string_views};

verus! {

/// Hits returned by a full-text query without a limit.
pub const DEFAULT_LIMIT: usize = 100;

/// Hits considered by a metadata query.
pub const METADATA_LIMIT: usize = 10000;

/// Which structural field a structured query searches.
#[derive(Debug, Clone, Copy, PartialEq, Eq, Structural)]
pub enum StructuredQueryType {
    /// SQLite table names.
    SqlTable,
    /// JSON paths.
    JsonPath,
    /// CSV, spreadsheet and table column names.
    ColumnName,
}

/// A typed query.
#[derive(Debug)]
pub enum Query {
    FullText { query: String, limit: Option<usize> },
    Metadata {
        category: Option<FileCategory>,
        mime_type: Option<String>,
        min_size: Option<u64>,
        max_size: Option<u64>,
        extension: Option<String>,
    },
    Structured { structured_type: StructuredQueryType, query: String },
    /// The hits of `metadata` whose ids are among the hits of `fulltext`.
    Combined { metadata: Box<Query>, fulltext: Box<Query> },
}

/// One search against the index, with the size bounds to apply to its hits.
#[derive(Debug)]
pub enum SearchPlan {
    Search { query: String, limit: usize, min_size: Option<u64>, max_size: Option<u64> },
    /// Run both; keep the hits of the first whose ids the second also has.
    Intersect { primary: Box<SearchPlan>, filter: Box<SearchPlan> },
}

/// The index field a structured query searches.
pub open spec fn structured_field(t: StructuredQueryType) -> Seq<char> {
    match t {
        StructuredQueryType::SqlTable => "tables"@,
        StructuredQueryType::JsonPath => "paths"@,
        StructuredQueryType::ColumnName => "columns"@,
    }
}

/// The clauses of a metadata query, in order.
pub open spec fn metadata_clauses(
    category: Option<FileCategory>,
    mime_type: Option<Seq<char>>,
    extension: Option<Seq<char>>,
) -> Seq<Seq<char>> {
    (match category {
        Some(c) => seq!["category:"@ + category_keyword(c)],
        None => Seq::empty(),
    }) + (match mime_type {
        Some(m) => seq!["mime_type:"@ + m],
        None => Seq::empty(),
    }) + (match extension {
        Some(e) => seq!["extension:"@ + e],
        None => Seq::empty(),
    })
}

/// The native query of a metadata filter: its clauses joined by ` AND `,
/// or `*` (everything) when there are none.
pub open spec fn metadata_query_text(
    category: Option<FileCategory>,
    mime_type: Option<Seq<char>>,
    extension: Option<Seq<char>>,
) -> Seq<char> {
    let cl = metadata_clauses(category, mime_type, extension);
    if cl.len() == 0 {
        "*"@
    } else {
        joined(cl, " AND "@)
    }
}

pub open spec fn opt_view(o: Option<String>) -> Option<Seq<char>> {
    match o {
        Some(s) => Some(s@),
        None => None,
    }
}

/// The plan of a query.
pub open spec fn plan_of(q: Query) -> SearchPlanView
    decreases q,
{
    match q {
        Query::FullText { query, limit } => SearchPlanView::Search {
            query: query@,
            limit: match limit {
                Some(l) => l,
                None => DEFAULT_LIMIT,
            },
            min_size: None,
            max_size: None,
        },
        Query::Metadata { category, mime_type, min_size, max_size, extension } => SearchPlanView::Search {
            query: metadata_query_text(category, opt_view(mime_type), opt_view(extension)),
            limit: METADATA_LIMIT,
            min_size,
            max_size,
        },
        Query::Structured { structured_type, query } => SearchPlanView::Search {
            query: structured_field(structured_type) + ":"@ + query@,
            limit: DEFAULT_LIMIT,
            min_size: None,
            max_size: None,
        },
        Query::Combined { metadata, fulltext } => SearchPlanView::Intersect {
            primary: Box::new(plan_of(*metadata)),
            filter: Box::new(plan_of(*fulltext)),
        },
    }
}

/// The mathematical value of a `SearchPlan`.
pub enum SearchPlanView {
    Search { query: Seq<char>, limit: usize, min_size: Option<u64>, max_size: Option<u64> },
    Intersect { primary: Box<SearchPlanView>, filter: Box<SearchPlanView> },
}

impl SearchPlan {
    pub open spec fn view_of(&self) -> SearchPlanView
        decreases self,
    {
        match self {
            SearchPlan::Search { query, limit, min_size, max_size } => SearchPlanView::Search {
                query: query@,
                limit: *limit,
                min_size: *min_size,
                max_size: *max_size,
            },
            SearchPlan::Intersect { primary, filter } => SearchPlanView::Intersect {
                primary: Box::new(primary.view_of()),
                filter: Box::new(filter.view_of()),
            },
        }
    }
}

/// A search hit with its category and location.
#[derive(Debug, Clone)]
pub struct TypedHit {
    pub id: String,
    pub path: String,
    pub category: FileCategory,
    /// Location inside the structure, such as `table:users`.
    pub location: Option<String>,
    pub snippet: String,
    /// The relevance score's IEEE-754 bit pattern, as the engine gave it.
    pub score_bits: u32,
    pub schema: Option<String>,
    /// The file's size in bytes, as stored in the index.
    pub size: u64,
}

/// The result of executing a query.
#[derive(Debug)]
pub struct QueryResult {
    pub hits: Vec<TypedHit>,
    pub total: usize,
    pub query_time_ms: u64,
}

/// `size` lies within the optional bounds.
pub open spec fn size_within(size: u64, min_size: Option<u64>, max_size: Option<u64>) -> bool {
    (match min_size {
        Some(m) => size >= m,
        None => true,
    }) && (match max_size {
        Some(m) => size <= m,
        None => true,
    })
}

/// The ids of a list of hits.
pub open spec fn hit_ids(h: Seq<TypedHit>) -> Seq<Seq<char>> {
    h.map_values(|x: TypedHit| x.id@)
}

/// The hits of `a` that satisfy `keep`, in order.
pub open spec fn kept(a: Seq<TypedHit>, keep: spec_fn(TypedHit) -> bool) -> Seq<TypedHit>
    decreases a.len(),
{
    if a.len() == 0 {
        seq![]
    } else if keep(a.last()) {
        kept(a.drop_last(), keep).push(a.last())
    } else {
        kept(a.drop_last(), keep)
    }
}

/// Compiles typed queries and combines their hits.
pub struct QueryPlanner;

impl QueryPlanner {
    /// The native query text of a metadata filter.
    pub fn metadata_query(category: Option<FileCategory>, mime_type: Option<&str>, extension: Option<&str>) -> (r:
        String)
        ensures
            r@ == metadata_query_text(
                category,
                match mime_type {
                    Some(m) => Some(m@),
                    None => None,
                },
                match extension {
                    Some(e) => Some(e@),
                    None => None,
                },
            ),
    {
        let mut parts: Vec<String> = Vec::new();
        if let Some(c) = category {
            let k = c.keyword();
            parts.push(concat("category:", k.as_str()));
        }
        if let Some(m) = mime_type {
            parts.push(concat("mime_type:", m));
        }
        if let Some(e) = extension {
            parts.push(concat("extension:", e));
        }
        let ghost mv = match mime_type {
            Some(m) => Some(m@),
            None => None,
        };
        let ghost ev = match extension {
            Some(e) => Some(e@),
            None => None,
        };
        assert(string_views(parts@) =~= metadata_clauses(category, mv, ev));
        if parts.len() == 0 {
            "*".to_owned()
        } else {
            join_strings(&parts, " AND ")
        }
    }

    /// The native query text of a structured query: `<field>:<query>`.
    pub fn structured_query(structured_type: StructuredQueryType, query: &str) -> (r: String)
        ensures
            r@ == structured_field(structured_type) + ":"@ + query@,
    {
        let field = match structured_type {
            StructuredQueryType::SqlTable => "tables",
            StructuredQueryType::JsonPath => "paths",
            StructuredQueryType::ColumnName => "columns",
        };
        let mut s = concat(field, ":");
        s.append(query);
        s
    }

    /// The searches that answer a query.
    pub fn plan(query: &Query) -> (r: SearchPlan)
        ensures
            r.view_of() == plan_of(*query),
        decreases query,
    {
        match query {
            Query::FullText { query, limit } => SearchPlan::Search {
                query: query.clone(),
                limit: match limit {
                    Some(l) => *l,
                    None => DEFAULT_LIMIT,
                },
                min_size: None,
                max_size: None,
            },
            Query::Metadata { category, mime_type, min_size, max_size, extension } => {
                let m = match mime_type {
                    Some(s) => Some(s.as_str()),
                    None => None,
                };
                let e = match extension {
                    Some(s) => Some(s.as_str()),
                    None => None,
                };
                SearchPlan::Search {
                    query: Self::metadata_query(*category, m, e),
                    limit: METADATA_LIMIT,
                    min_size: *min_size,
                    max_size: *max_size,
                }
            },
            Query::Structured { structured_type, query } => SearchPlan::Search {
                query: Self::structured_query(*structured_type, query.as_str()),
                limit: DEFAULT_LIMIT,
                min_size: None,
                max_size: None,
            },
            Query::Combined { metadata, fulltext } => {
                let primary = Self::plan(metadata);
                let filter = Self::plan(fulltext);
                SearchPlan::Intersect { primary: Box::new(primary), filter: Box::new(filter) }
            },
        }
    }

    /// The hits whose size lies within the bounds, in order.
    pub fn filter_by_size(hits: Vec<TypedHit>, min_size: Option<u64>, max_size: Option<u64>) -> (r: Vec<TypedHit>)
        ensures
            r@ == kept(hits@, |h: TypedHit| size_within(h.size, min_size, max_size)),
    {
        let ghost keep = |h: TypedHit| size_within(h.size, min_size, max_size);
        let mut out: Vec<TypedHit> = Vec::new();
        let mut i: usize = 0;
        while i < hits.len()
            invariant
                i <= hits@.len(),
                keep == (|h: TypedHit| size_within(h.size, min_size, max_size)),
                out@ == kept(hits@.subrange(0, i as int), keep),
            decreases hits.len() - i,
        {
            let ghost cur = hits@.subrange(0, i + 1);
            assert(cur.drop_last() =~= hits@.subrange(0, i as int));
            let s = hits[i].size;
            let ok = (match min_size {
                Some(m) => s >= m,
                None => true,
            }) && (match max_size {
                Some(m) => s <= m,
                None => true,
            });
            if ok {
                out.push(hits[i].clone_hit());
            }
            i = i + 1;
        }
        assert(hits@.subrange(0, hits@.len() as int) =~= hits@);
        out
    }

    /// The hits of `a` whose id some hit of `b` has, in `a`'s order.
    pub fn intersect_results(a: Vec<TypedHit>, b: Vec<TypedHit>) -> (r: Vec<TypedHit>)
        ensures
            r@ == kept(a@, |h: TypedHit| hit_ids(b@).contains(h.id@)),
    {
        let mut ids: Vec<String> = Vec::new();
        let mut j: usize = 0;
        while j < b.len()
            invariant
                j <= b@.len(),
                string_views(ids@) == hit_ids(b@).subrange(0, j as int),
            decreases b.len() - j,
        {
            let ghost before = string_views(ids@);
            ids.push(b[j].id.clone());
            assert(string_views(ids@) =~= before.push(b@[j as int].id@));
            assert(hit_ids(b@).subrange(0, j + 1) =~= hit_ids(b@).subrange(0, j as int).push(b@[j as int].id@));
            j = j + 1;
        }
        assert(hit_ids(b@).subrange(0, b@.len() as int) =~= hit_ids(b@));
        let ghost keep = |h: TypedHit| hit_ids(b@).contains(h.id@);
        let mut out: Vec<TypedHit> = Vec::new();
        let mut i: usize = 0;
        while i < a.len()
            invariant
                i <= a@.len(),
                string_views(ids@) == hit_ids(b@),
                keep == (|h: TypedHit| hit_ids(b@).contains(h.id@)),
                out@ == kept(a@.subrange(0, i as int), keep),
            decreases a.len() - i,
        {
            let ghost cur = a@.subrange(0, i + 1);
            assert(cur.drop_last() =~= a@.subrange(0, i as int));
            if crate::archive::contains_string(&ids, a[i].id.as_str()) {
                out.push(a[i].clone_hit());
            }
            i = i + 1;
        }
        assert(a@.subrange(0, a@.len() as int) =~= a@);
        out
    }

    /// The result of a list of hits found in `query_time_ms`.
    pub fn result(hits: Vec<TypedHit>, query_time_ms: u64) -> (r: QueryResult)
        ensures
            r.hits@ == hits@,
            r.total == hits@.len(),
            r.query_time_ms == query_time_ms,
    {
        let total = hits.len();
        QueryResult { hits, total, query_time_ms }
    }
}

impl TypedHit {
    /// A copy of the hit.
    pub fn clone_hit(&self) -> (r: TypedHit)
        ensures
            r == *self,
    {
        TypedHit {
            id: self.id.clone(),
            path: self.path.clone(),
            category: self.category,
            location: match &self.location {
                Some(l) => Some(l.clone()),
                None => None,
            },
            snippet: self.snippet.clone(),
            score_bits: self.score_bits,
            schema: match &self.schema {
                Some(s) => Some(s.clone()),
                None => None,
            },
            size: self.size,
        }
    }
}

} // verus!
