use evidence_index::query::{Query, QueryPlanner, SearchPlan, StructuredQueryType, TypedHit};
use evidence_index::schema::FileCategory;

fn hit(id: &str, size: u64) -> TypedHit {
    TypedHit {
        id: id.to_string(),
        path: format!("/e/{}", id),
        category: FileCategory::Text,
        location: None,
        snippet: String::new(),
        score_bits: 0,
        schema: None,
        size,
    }
}

#[test]
fn full_text_query_is_planned() {
    let query = Query::FullText { query: "test".to_string(), limit: Some(10) };
    match QueryPlanner::plan(&query) {
        SearchPlan::Search { query, limit, .. } => {
            assert_eq!(query, "test");
            assert_eq!(limit, 10);
        }
        _ => panic!("expected a search"),
    }
}

#[test]
fn metadata_query_text() {
    assert_eq!(QueryPlanner::metadata_query(None, None, None), "*");
    assert_eq!(
        QueryPlanner::metadata_query(Some(FileCategory::StructuredData), Some("text/csv"), Some("csv")),
        "category:structureddata AND mime_type:text/csv AND extension:csv"
    );
    assert_eq!(QueryPlanner::metadata_query(None, None, Some("txt")), "extension:txt");
}

#[test]
fn structured_queries_target_fields() {
    assert_eq!(QueryPlanner::structured_query(StructuredQueryType::SqlTable, "users"), "tables:users");
    assert_eq!(QueryPlanner::structured_query(StructuredQueryType::JsonPath, "k"), "paths:k");
    assert_eq!(QueryPlanner::structured_query(StructuredQueryType::ColumnName, "id"), "columns:id");
}

#[test]
fn plans_of_each_variant() {
    let q = Query::Combined {
        metadata: Box::new(Query::Metadata {
            category: Some(FileCategory::Text),
            mime_type: None,
            min_size: Some(2),
            max_size: None,
            extension: None,
        }),
        fulltext: Box::new(Query::FullText { query: "world".to_string(), limit: None }),
    };
    match QueryPlanner::plan(&q) {
        SearchPlan::Intersect { primary, filter } => {
            match *primary {
                SearchPlan::Search { query, limit, min_size, .. } => {
                    assert_eq!(query, "category:text");
                    assert_eq!(limit, 10000);
                    assert_eq!(min_size, Some(2));
                }
                _ => panic!("expected a search"),
            }
            match *filter {
                SearchPlan::Search { query, limit, .. } => {
                    assert_eq!(query, "world");
                    assert_eq!(limit, 100);
                }
                _ => panic!("expected a search"),
            }
        }
        _ => panic!("expected an intersection"),
    }
}

#[test]
fn intersection_keeps_primary_order() {
    let a = vec![hit("1", 1), hit("2", 2), hit("3", 3)];
    let b = vec![hit("3", 3), hit("1", 1)];
    let r = QueryPlanner::intersect_results(a, b);
    let ids: Vec<&str> = r.iter().map(|h| h.id.as_str()).collect();
    assert_eq!(ids, vec!["1", "3"]);
    assert!(QueryPlanner::intersect_results(vec![hit("1", 1)], vec![]).is_empty());
}

#[test]
fn size_bounds_are_applied() {
    let hits = vec![hit("a", 1), hit("b", 50), hit("c", 500)];
    let r = QueryPlanner::filter_by_size(hits, Some(10), Some(100));
    assert_eq!(r.len(), 1);
    assert_eq!(r[0].id, "b");
    let res = QueryPlanner::result(r, 7);
    assert_eq!(res.total, 1);
    assert_eq!(res.query_time_ms, 7);
}
