use graph_engine::bolt::query_of;
use graph_engine::consolidation::ConsolidationResult;
use graph_engine::cypher;
use graph_engine::real32::Real32;
use graph_engine::rows::Fetched;
use graph_engine::service::{
    answer_row, count_edges, count_nodes, count_of, count_total, delete_node, delete_response,
    ingest_response, list_nodes, list_response, list_row, node_info, query, stats_response,
    update_node, update_response, wrap_to_i32, NodeInfo, NodeInfoRow, NodeResult, NodeRow,
};
use graph_engine::statement::{Statement, Value};

fn single(number: f32) -> Real32 {
    Real32 { bits: number.to_bits() }
}

#[test]
fn query_text_holds_the_number() {
    let statement = query(12, &[single(0.5)]);
    assert_eq!(
        statement.text,
        "CALL db.index.vector.queryNodes('fact_embeddings', 12, $embedding) YIELD node, score RETURN node.id AS id, node.content AS content, score"
    );
    match &statement.params[0] {
        ("embedding", Value::Vector(components)) => assert_eq!(*components, vec![single(0.5)]),
        other => panic!("{:?}", other),
    }
    assert_eq!(statement.params.len(), 1);
}

#[test]
fn query_asks_for_five_by_default() {
    for top_k in [0, -1, i32::MIN] {
        assert_eq!(query(top_k, &[]).text, query(5, &[]).text);
    }
    assert!(query(i32::MAX, &[]).text.contains(" 2147483647, $embedding"));
}

#[test]
fn query_answers_and_marks_each_row() {
    for stop in [Fetched::End, Fetched::Failed] {
        let mut results: Vec<NodeResult> = Vec::new();
        for id in ["n1", "n2"] {
            let row = NodeRow {
                id: Some(id.to_string()),
                content: Some("c".to_string()),
                score: Some(single(0.5)),
            };
            let touch = answer_row(&mut results, Fetched::Row(row)).unwrap();
            assert_eq!(touch.text, cypher::TOUCH_NODE);
            match &touch.params[0] {
                ("id", Value::Text(marked)) => assert_eq!(marked, id),
                other => panic!("{:?}", other),
            }
        }
        assert!(answer_row(&mut results, stop).is_none());
        assert_eq!(results.len(), 2);
        assert_eq!(results[0].id, "n1");
        assert_eq!(results[1].id, "n2");
        assert_eq!(results[1].content, "c");
        assert_eq!(results[1].score, single(0.5));
    }
}

#[test]
fn query_row_without_columns() {
    let mut results: Vec<NodeResult> = Vec::new();
    let row = NodeRow { id: None, content: None, score: None };
    assert!(answer_row(&mut results, Fetched::Row(row)).is_some());
    assert_eq!(results[0].id, "");
    assert_eq!(results[0].content, "");
    assert_eq!(results[0].score, single(0.0));
}

#[test]
fn ingest_names_the_action_and_the_node() {
    let merged = ingest_response(ConsolidationResult::Merged { node_id: "a".to_string() });
    assert_eq!((merged.action.as_str(), merged.node_id.as_str()), ("merged", "a"));
    let related = ingest_response(ConsolidationResult::Related {
        new_id: "b".to_string(),
        related_to: "a".to_string(),
    });
    assert_eq!((related.action.as_str(), related.node_id.as_str()), ("related", "b"));
    let inserted = ingest_response(ConsolidationResult::Inserted { node_id: "c".to_string() });
    assert_eq!((inserted.action.as_str(), inserted.node_id.as_str()), ("inserted", "c"));
    let discarded = ingest_response(ConsolidationResult::Discarded { node_id: "d".to_string() });
    assert_eq!((discarded.action.as_str(), discarded.node_id.as_str()), ("discarded", "d"));
}

#[test]
fn wrapping_is_that_of_a_cast() {
    for value in [
        0i64,
        1,
        -1,
        i32::MAX as i64,
        i32::MIN as i64,
        i32::MAX as i64 + 1,
        i32::MIN as i64 - 1,
        i64::MAX,
        i64::MIN,
        0x1_0000_0000,
        0x1_8000_0000,
        -0x1_0000_0001,
    ] {
        assert_eq!(wrap_to_i32(value), value as i32);
    }
    assert_eq!(wrap_to_i32(2147483648), -2147483648);
}

#[test]
fn counts_default_to_zero() {
    assert_eq!(count_of(Fetched::Row(Some(7))), 7);
    assert_eq!(count_of(Fetched::Row(None)), 0);
    assert_eq!(count_of(Fetched::End), 0);
    assert_eq!(count_of(Fetched::Failed), 0);
}

#[test]
fn stats_report_both_counts() {
    let stats = stats_response(Fetched::Row(Some(3)), Fetched::Row(Some(8)));
    assert_eq!(stats.total_nodes, 3);
    assert_eq!(stats.total_edges, 8);
    assert_eq!(stats.forgotten_nodes, 0);
    let none = stats_response(Fetched::Failed, Fetched::End);
    assert_eq!((none.total_nodes, none.total_edges), (0, 0));
}

#[test]
fn count_statements() {
    assert_eq!(count_nodes().text, "MATCH (n:Fact) RETURN count(n) as total_nodes");
    assert_eq!(count_edges().text, "MATCH ()-[r]->() RETURN count(r) as total_edges");
    assert_eq!(count_total().text, "MATCH (n:Fact) RETURN count(n) AS total");
    assert!(count_total().params.is_empty());
}

fn page(statement: &Statement) -> (i64, i64) {
    match (&statement.params[0], &statement.params[1]) {
        (("offset", Value::Integer(offset)), ("limit", Value::Integer(limit))) => {
            (*offset, *limit)
        }
        other => panic!("{:?}", other),
    }
}

#[test]
fn pages_have_sensible_bounds() {
    assert_eq!(page(&list_nodes(10, 20)), (20, 10));
    assert_eq!(page(&list_nodes(0, 0)), (0, 50));
    assert_eq!(page(&list_nodes(-5, -5)), (0, 50));
    assert_eq!(page(&list_nodes(i32::MAX, i32::MAX)), (2147483647, 2147483647));
    assert_eq!(list_nodes(1, 1).text, cypher::LIST_NODES);
    assert!(list_nodes(1, 1).text.contains("ORDER BY coalesce(n.last_accessed, 0) DESC"));
}

fn full_row(id: &str) -> NodeInfoRow {
    NodeInfoRow {
        id: Some(id.to_string()),
        content: Some("c".to_string()),
        uso_count: Some(2),
        merge_count: Some(3),
        created_at: Some(5_000_000_000),
        last_accessed: Some(6_000_000_000),
        degree: Some(4),
    }
}

#[test]
fn page_rows_keep_their_columns() {
    let info = node_info(full_row("n1"));
    assert_eq!(info.id, "n1");
    assert_eq!(info.content, "c");
    assert_eq!((info.uso_count, info.merge_count, info.degree), (2, 3, 4));
    assert_eq!((info.created_at, info.last_accessed), (5_000_000_000, 6_000_000_000));
}

#[test]
fn page_row_without_columns() {
    let info = node_info(NodeInfoRow {
        id: None,
        content: None,
        uso_count: None,
        merge_count: None,
        created_at: None,
        last_accessed: None,
        degree: None,
    });
    assert_eq!(info.id, "");
    assert_eq!(info.content, "");
    assert_eq!((info.uso_count, info.merge_count, info.degree), (1, 0, 0));
    assert_eq!((info.created_at, info.last_accessed), (0, 0));
}

#[test]
fn page_is_read_until_end_or_failure() {
    for stop in [Fetched::End, Fetched::Failed] {
        let mut nodes: Vec<NodeInfo> = Vec::new();
        assert!(list_row(&mut nodes, Fetched::Row(full_row("n1"))));
        assert!(list_row(&mut nodes, Fetched::Row(full_row("n2"))));
        assert!(!list_row(&mut nodes, stop));
        let response = list_response(nodes, Fetched::Row(Some(42)));
        assert_eq!(response.nodes.len(), 2);
        assert_eq!(response.nodes[1].id, "n2");
        assert_eq!(response.total, 42);
    }
}

#[test]
fn update_succeeds_where_a_row_comes_back() {
    let statement = update_node("i", "t", &[single(0.5)]);
    assert_eq!(statement.text, cypher::UPDATE_NODE);
    let names: Vec<&str> = statement.params.iter().map(|param| param.0).collect();
    assert_eq!(names, vec!["id", "content", "embedding"]);
    let done = update_response("i".to_string(), Fetched::Row(()));
    assert!(done.success);
    assert_eq!(done.id, "i");
    assert!(!update_response("i".to_string(), Fetched::<()>::End).success);
    assert!(!update_response("i".to_string(), Fetched::<()>::Failed).success);
}

#[test]
fn delete_reports_the_edges() {
    let statement = delete_node("i");
    assert_eq!(statement.text, cypher::DELETE_NODE);
    assert_eq!(statement.params.len(), 1);
    let done = delete_response(Fetched::Row(Some(6)));
    assert_eq!((done.success, done.deleted_edges), (true, 6));
    let unknown = delete_response(Fetched::Row(None));
    assert_eq!((unknown.success, unknown.deleted_edges), (true, 0));
    let missing = delete_response(Fetched::End);
    assert_eq!((missing.success, missing.deleted_edges), (false, 0));
    let failed = delete_response(Fetched::Failed);
    assert_eq!((failed.success, failed.deleted_edges), (false, 0));
}

#[test]
fn driver_query_has_the_plain_parameters() {
    let update = query_of(&update_node("i", "t", &[single(0.5)]));
    assert!(update.has_param_key("id"));
    assert!(update.has_param_key("content"));
    assert!(!update.has_param_key("embedding"));
    let listing = query_of(&list_nodes(1, 2));
    assert!(listing.has_param_key("limit"));
    assert!(listing.has_param_key("offset"));
    assert!(!query_of(&count_nodes()).has_param_key("id"));
}
