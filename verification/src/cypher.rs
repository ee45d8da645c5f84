//! The Cypher texts that the engine sends.

use vstd::prelude::*;
use crate::text;

verus! {

/// The nearest facts to an embedding, with all that consolidation needs, nearest first.
pub const SEARCH_CANDIDATES: &'static str = "
        CALL db.index.vector.queryNodes('fact_embeddings', $k, $embedding)
        YIELD node, score
        RETURN node.id        AS id,
               node.content    AS content,
               node.embedding  AS embedding,
               coalesce(node.uso_count, 1) AS uso_count,
               score
        ORDER BY score DESC
    ";

/// Creates a fact, used once and never merged.
pub const CREATE_NODE: &'static str = "CREATE (n:Fact {
                    id: $id,
                    content: $content,
                    embedding: $embedding,
                    uso_count: 1,
                    merge_count: 0,
                    created_at: timestamp(),
                    last_accessed: timestamp()
                 })";

/// Relates two facts, without a second edge between them; of two scores the larger is kept.
pub const CREATE_RELATED_EDGE: &'static str = "MATCH (a:Fact {id: $new_id}), (b:Fact {id: $target_id})
                 MERGE (a)-[r:RELATED]->(b)
                 ON CREATE SET r.score = $score, r.created_at = timestamp()
                 ON MATCH  SET r.score = CASE WHEN $score > r.score THEN $score ELSE r.score END";

/// Counts one more use of a fact and notes the time.
pub const REINFORCE_USAGE: &'static str = "MATCH (n:Fact {id: $id})
                 SET n.uso_count = coalesce(n.uso_count, 1) + 1,
                     n.last_accessed = timestamp()";

/// Replaces content and embedding of a fact and counts one more use and one more merge.
pub const MERGE_NODE: &'static str = "MATCH (n:Fact {id: $id})
                 SET n.content = $content,
                     n.embedding = $embedding,
                     n.uso_count = coalesce(n.uso_count, 1) + 1,
                     n.merge_count = coalesce(n.merge_count, 0) + 1,
                     n.last_accessed = timestamp()";

/// Counts one more use of a fact that a query has found.
pub const TOUCH_NODE: &'static str = "MATCH (n:Fact {id: $id}) SET n.uso_count = coalesce(n.uso_count, 1) + 1, n.last_accessed = timestamp()";

/// Counts the facts.
pub const COUNT_NODES: &'static str = "MATCH (n:Fact) RETURN count(n) as total_nodes";

/// Counts the edges.
pub const COUNT_EDGES: &'static str = "MATCH ()-[r]->() RETURN count(r) as total_edges";

/// A page of the facts, the most recently used first.
pub const LIST_NODES: &'static str = "
            MATCH (n:Fact)
            RETURN n.id AS id,
                   n.content AS content,
                   coalesce(n.uso_count, 1)   AS uso_count,
                   coalesce(n.merge_count, 0) AS merge_count,
                   coalesce(n.created_at, 0)  AS created_at,
                   coalesce(n.last_accessed, 0) AS last_accessed,
                   COUNT { (n)--() } AS degree
            ORDER BY coalesce(n.last_accessed, 0) DESC
            SKIP $offset LIMIT $limit
        ";

/// Counts the facts, for paging.
pub const COUNT_TOTAL: &'static str = "MATCH (n:Fact) RETURN count(n) AS total";

/// Replaces content and embedding of a fact; replies with a row if there is one.
pub const UPDATE_NODE: &'static str = "
            MATCH (n:Fact {id: $id})
            SET n.content = $content,
                n.embedding = $embedding,
                n.last_accessed = timestamp()
            RETURN n.id AS id
        ";

/// Removes a fact with its edges; replies with their number if there was one.
pub const DELETE_NODE: &'static str = "
            MATCH (n:Fact {id: $id})
            WITH n, COUNT { (n)--() } AS deleted_edges
            DETACH DELETE n
            RETURN deleted_edges
        ";

/// Creates the vector index over the embeddings, unless it exists.
pub const CREATE_INDEX: &'static str = "
                    CREATE VECTOR INDEX fact_embeddings IF NOT EXISTS 
                    FOR (n:Fact) ON (n.embedding) 
                    OPTIONS {indexConfig: {`vector.dimensions`: 384, `vector.similarity_function`: 'cosine'}}
                ";

/// What a query sends before the number of facts that it asks for.
pub const QUERY_BEFORE_TOP_K: &'static str = "CALL db.index.vector.queryNodes('fact_embeddings', ";

/// What a query sends after the number of facts that it asks for.
pub const QUERY_AFTER_TOP_K: &'static str = ", $embedding) YIELD node, score RETURN node.id AS id, node.content AS content, score";

/// The creation of a node differs from the other statements of a consolidation.
pub proof fn lemma_creation_is_told_apart()
    ensures
        CREATE_RELATED_EDGE@ != CREATE_NODE@,
        REINFORCE_USAGE@ != CREATE_NODE@,
        MERGE_NODE@ != CREATE_NODE@,
{
    reveal_strlit("CREATE (n:Fact {
                    id: $id,
                    content: $content,
                    embedding: $embedding,
                    uso_count: 1,
                    merge_count: 0,
                    created_at: timestamp(),
                    last_accessed: timestamp()
                 })");
    reveal_strlit("MATCH (a:Fact {id: $new_id}), (b:Fact {id: $target_id})
                 MERGE (a)-[r:RELATED]->(b)
                 ON CREATE SET r.score = $score, r.created_at = timestamp()
                 ON MATCH  SET r.score = CASE WHEN $score > r.score THEN $score ELSE r.score END");
    reveal_strlit("MATCH (n:Fact {id: $id})
                 SET n.uso_count = coalesce(n.uso_count, 1) + 1,
                     n.last_accessed = timestamp()");
    reveal_strlit("MATCH (n:Fact {id: $id})
                 SET n.content = $content,
                     n.embedding = $embedding,
                     n.uso_count = coalesce(n.uso_count, 1) + 1,
                     n.merge_count = coalesce(n.merge_count, 0) + 1,
                     n.last_accessed = timestamp()");
    assert(CREATE_NODE@[0] == 'C');
    assert(CREATE_RELATED_EDGE@[0] == 'M');
    assert(REINFORCE_USAGE@[0] == 'M');
    assert(MERGE_NODE@[0] == 'M');
}

/// The search for neighbours asks the vector index for `$k` facts near `$embedding`, returns each with
/// identifier, content, embedding, use count (1 where there is none) and score, and orders by score,
/// the best first.
pub proof fn law_search_returns_the_nearest_first()
    ensures
        text::occurs_in("queryNodes('fact_embeddings', $k, $embedding)"@, SEARCH_CANDIDATES@),
        text::occurs_in("YIELD node, score"@, SEARCH_CANDIDATES@),
        text::occurs_in("node.id        AS id"@, SEARCH_CANDIDATES@),
        text::occurs_in("node.content    AS content"@, SEARCH_CANDIDATES@),
        text::occurs_in("node.embedding  AS embedding"@, SEARCH_CANDIDATES@),
        text::occurs_in("coalesce(node.uso_count, 1) AS uso_count"@, SEARCH_CANDIDATES@),
        text::occurs_in("ORDER BY score DESC"@, SEARCH_CANDIDATES@),
{
    reveal_strlit("
        CALL db.index.vector.queryNodes('fact_embeddings', $k, $embedding)
        YIELD node, score
        RETURN node.id        AS id,
               node.content    AS content,
               node.embedding  AS embedding,
               coalesce(node.uso_count, 1) AS uso_count,
               score
        ORDER BY score DESC
    ");
    assert(text::occurs_at("queryNodes('fact_embeddings', $k, $embedding)"@, SEARCH_CANDIDATES@, 30)) by {
        reveal_strlit("queryNodes('fact_embeddings', $k, $embedding)");
        assert(SEARCH_CANDIDATES@.subrange(30, 75) =~= "queryNodes('fact_embeddings', $k, $embedding)"@);
    }
    assert(text::occurs_at("YIELD node, score"@, SEARCH_CANDIDATES@, 84)) by {
        reveal_strlit("YIELD node, score");
        assert(SEARCH_CANDIDATES@.subrange(84, 101) =~= "YIELD node, score"@);
    }
    assert(text::occurs_at("node.id        AS id"@, SEARCH_CANDIDATES@, 117)) by {
        reveal_strlit("node.id        AS id");
        assert(SEARCH_CANDIDATES@.subrange(117, 137) =~= "node.id        AS id"@);
    }
    assert(text::occurs_at("node.content    AS content"@, SEARCH_CANDIDATES@, 154)) by {
        reveal_strlit("node.content    AS content");
        assert(SEARCH_CANDIDATES@.subrange(154, 180) =~= "node.content    AS content"@);
    }
    assert(text::occurs_at("node.embedding  AS embedding"@, SEARCH_CANDIDATES@, 197)) by {
        reveal_strlit("node.embedding  AS embedding");
        assert(SEARCH_CANDIDATES@.subrange(197, 225) =~= "node.embedding  AS embedding"@);
    }
    assert(text::occurs_at("coalesce(node.uso_count, 1) AS uso_count"@, SEARCH_CANDIDATES@, 242)) by {
        reveal_strlit("coalesce(node.uso_count, 1) AS uso_count");
        assert(SEARCH_CANDIDATES@.subrange(242, 282) =~= "coalesce(node.uso_count, 1) AS uso_count"@);
    }
    assert(text::occurs_at("ORDER BY score DESC"@, SEARCH_CANDIDATES@, 313)) by {
        reveal_strlit("ORDER BY score DESC");
        assert(SEARCH_CANDIDATES@.subrange(313, 332) =~= "ORDER BY score DESC"@);
    }
}

/// The creation of a fact sets identifier, content and embedding from its parameters, one use, no
/// merge, and both times.
pub proof fn law_creation_sets_all_properties()
    ensures
        text::occurs_in("CREATE (n:Fact {"@, CREATE_NODE@),
        text::occurs_in(" id: $id,"@, CREATE_NODE@),
        text::occurs_in("content: $content,"@, CREATE_NODE@),
        text::occurs_in("embedding: $embedding,"@, CREATE_NODE@),
        text::occurs_in("uso_count: 1,"@, CREATE_NODE@),
        text::occurs_in("merge_count: 0,"@, CREATE_NODE@),
        text::occurs_in("created_at: timestamp(),"@, CREATE_NODE@),
        text::occurs_in("last_accessed: timestamp()"@, CREATE_NODE@),
{
    reveal_strlit("CREATE (n:Fact {
                    id: $id,
                    content: $content,
                    embedding: $embedding,
                    uso_count: 1,
                    merge_count: 0,
                    created_at: timestamp(),
                    last_accessed: timestamp()
                 })");
    assert(text::occurs_at("CREATE (n:Fact {"@, CREATE_NODE@, 0)) by {
        reveal_strlit("CREATE (n:Fact {");
        assert(CREATE_NODE@.subrange(0, 16) =~= "CREATE (n:Fact {"@);
    }
    assert(text::occurs_at(" id: $id,"@, CREATE_NODE@, 36)) by {
        reveal_strlit(" id: $id,");
        assert(CREATE_NODE@.subrange(36, 45) =~= " id: $id,"@);
    }
    assert(text::occurs_at("content: $content,"@, CREATE_NODE@, 66)) by {
        reveal_strlit("content: $content,");
        assert(CREATE_NODE@.subrange(66, 84) =~= "content: $content,"@);
    }
    assert(text::occurs_at("embedding: $embedding,"@, CREATE_NODE@, 105)) by {
        reveal_strlit("embedding: $embedding,");
        assert(CREATE_NODE@.subrange(105, 127) =~= "embedding: $embedding,"@);
    }
    assert(text::occurs_at("uso_count: 1,"@, CREATE_NODE@, 148)) by {
        reveal_strlit("uso_count: 1,");
        assert(CREATE_NODE@.subrange(148, 161) =~= "uso_count: 1,"@);
    }
    assert(text::occurs_at("merge_count: 0,"@, CREATE_NODE@, 182)) by {
        reveal_strlit("merge_count: 0,");
        assert(CREATE_NODE@.subrange(182, 197) =~= "merge_count: 0,"@);
    }
    assert(text::occurs_at("created_at: timestamp(),"@, CREATE_NODE@, 218)) by {
        reveal_strlit("created_at: timestamp(),");
        assert(CREATE_NODE@.subrange(218, 242) =~= "created_at: timestamp(),"@);
    }
    assert(text::occurs_at("last_accessed: timestamp()"@, CREATE_NODE@, 263)) by {
        reveal_strlit("last_accessed: timestamp()");
        assert(CREATE_NODE@.subrange(263, 289) =~= "last_accessed: timestamp()"@);
    }
}

/// An edge goes from the new fact to the target, is not doubled, starts with the given score and
/// keeps the larger one after that.
pub proof fn law_edge_is_unique_and_keeps_the_best_score()
    ensures
        text::occurs_in("MATCH (a:Fact {id: $new_id}), (b:Fact {id: $target_id})"@, CREATE_RELATED_EDGE@),
        text::occurs_in("MERGE (a)-[r:RELATED]->(b)"@, CREATE_RELATED_EDGE@),
        text::occurs_in("ON CREATE SET r.score = $score, r.created_at = timestamp()"@, CREATE_RELATED_EDGE@),
        text::occurs_in("ON MATCH  SET r.score = CASE WHEN $score > r.score THEN $score ELSE r.score END"@, CREATE_RELATED_EDGE@),
{
    reveal_strlit("MATCH (a:Fact {id: $new_id}), (b:Fact {id: $target_id})
                 MERGE (a)-[r:RELATED]->(b)
                 ON CREATE SET r.score = $score, r.created_at = timestamp()
                 ON MATCH  SET r.score = CASE WHEN $score > r.score THEN $score ELSE r.score END");
    assert(text::occurs_at("MATCH (a:Fact {id: $new_id}), (b:Fact {id: $target_id})"@, CREATE_RELATED_EDGE@, 0)) by {
        reveal_strlit("MATCH (a:Fact {id: $new_id}), (b:Fact {id: $target_id})");
        assert(CREATE_RELATED_EDGE@.subrange(0, 55) =~= "MATCH (a:Fact {id: $new_id}), (b:Fact {id: $target_id})"@);
    }
    assert(text::occurs_at("MERGE (a)-[r:RELATED]->(b)"@, CREATE_RELATED_EDGE@, 73)) by {
        reveal_strlit("MERGE (a)-[r:RELATED]->(b)");
        assert(CREATE_RELATED_EDGE@.subrange(73, 99) =~= "MERGE (a)-[r:RELATED]->(b)"@);
    }
    assert(text::occurs_at("ON CREATE SET r.score = $score, r.created_at = timestamp()"@, CREATE_RELATED_EDGE@, 117)) by {
        reveal_strlit("ON CREATE SET r.score = $score, r.created_at = timestamp()");
        assert(CREATE_RELATED_EDGE@.subrange(117, 175) =~= "ON CREATE SET r.score = $score, r.created_at = timestamp()"@);
    }
    assert(text::occurs_at("ON MATCH  SET r.score = CASE WHEN $score > r.score THEN $score ELSE r.score END"@, CREATE_RELATED_EDGE@, 193)) by {
        reveal_strlit("ON MATCH  SET r.score = CASE WHEN $score > r.score THEN $score ELSE r.score END");
        assert(CREATE_RELATED_EDGE@.subrange(193, 272) =~= "ON MATCH  SET r.score = CASE WHEN $score > r.score THEN $score ELSE r.score END"@);
    }
}

/// Reinforcing adds one use to the fact with the given identifier and notes the time.
pub proof fn law_reinforcing_counts_one_use()
    ensures
        text::occurs_in("MATCH (n:Fact {id: $id})"@, REINFORCE_USAGE@),
        text::occurs_in("SET n.uso_count = coalesce(n.uso_count, 1) + 1"@, REINFORCE_USAGE@),
        text::occurs_in("n.last_accessed = timestamp()"@, REINFORCE_USAGE@),
{
    reveal_strlit("MATCH (n:Fact {id: $id})
                 SET n.uso_count = coalesce(n.uso_count, 1) + 1,
                     n.last_accessed = timestamp()");
    assert(text::occurs_at("MATCH (n:Fact {id: $id})"@, REINFORCE_USAGE@, 0)) by {
        reveal_strlit("MATCH (n:Fact {id: $id})");
        assert(REINFORCE_USAGE@.subrange(0, 24) =~= "MATCH (n:Fact {id: $id})"@);
    }
    assert(text::occurs_at("SET n.uso_count = coalesce(n.uso_count, 1) + 1"@, REINFORCE_USAGE@, 42)) by {
        reveal_strlit("SET n.uso_count = coalesce(n.uso_count, 1) + 1");
        assert(REINFORCE_USAGE@.subrange(42, 88) =~= "SET n.uso_count = coalesce(n.uso_count, 1) + 1"@);
    }
    assert(text::occurs_at("n.last_accessed = timestamp()"@, REINFORCE_USAGE@, 111)) by {
        reveal_strlit("n.last_accessed = timestamp()");
        assert(REINFORCE_USAGE@.subrange(111, 140) =~= "n.last_accessed = timestamp()"@);
    }
}

/// Merging sets content and embedding of the fact with the given identifier, adds one use and one
/// merge, and notes the time.
pub proof fn law_merging_sets_content_and_counts()
    ensures
        text::occurs_in("MATCH (n:Fact {id: $id})"@, MERGE_NODE@),
        text::occurs_in("SET n.content = $content"@, MERGE_NODE@),
        text::occurs_in("n.embedding = $embedding"@, MERGE_NODE@),
        text::occurs_in("n.uso_count = coalesce(n.uso_count, 1) + 1"@, MERGE_NODE@),
        text::occurs_in("n.merge_count = coalesce(n.merge_count, 0) + 1"@, MERGE_NODE@),
        text::occurs_in("n.last_accessed = timestamp()"@, MERGE_NODE@),
{
    reveal_strlit("MATCH (n:Fact {id: $id})
                 SET n.content = $content,
                     n.embedding = $embedding,
                     n.uso_count = coalesce(n.uso_count, 1) + 1,
                     n.merge_count = coalesce(n.merge_count, 0) + 1,
                     n.last_accessed = timestamp()");
    assert(text::occurs_at("MATCH (n:Fact {id: $id})"@, MERGE_NODE@, 0)) by {
        reveal_strlit("MATCH (n:Fact {id: $id})");
        assert(MERGE_NODE@.subrange(0, 24) =~= "MATCH (n:Fact {id: $id})"@);
    }
    assert(text::occurs_at("SET n.content = $content"@, MERGE_NODE@, 42)) by {
        reveal_strlit("SET n.content = $content");
        assert(MERGE_NODE@.subrange(42, 66) =~= "SET n.content = $content"@);
    }
    assert(text::occurs_at("n.embedding = $embedding"@, MERGE_NODE@, 89)) by {
        reveal_strlit("n.embedding = $embedding");
        assert(MERGE_NODE@.subrange(89, 113) =~= "n.embedding = $embedding"@);
    }
    assert(text::occurs_at("n.uso_count = coalesce(n.uso_count, 1) + 1"@, MERGE_NODE@, 136)) by {
        reveal_strlit("n.uso_count = coalesce(n.uso_count, 1) + 1");
        assert(MERGE_NODE@.subrange(136, 178) =~= "n.uso_count = coalesce(n.uso_count, 1) + 1"@);
    }
    assert(text::occurs_at("n.merge_count = coalesce(n.merge_count, 0) + 1"@, MERGE_NODE@, 201)) by {
        reveal_strlit("n.merge_count = coalesce(n.merge_count, 0) + 1");
        assert(MERGE_NODE@.subrange(201, 247) =~= "n.merge_count = coalesce(n.merge_count, 0) + 1"@);
    }
    assert(text::occurs_at("n.last_accessed = timestamp()"@, MERGE_NODE@, 270)) by {
        reveal_strlit("n.last_accessed = timestamp()");
        assert(MERGE_NODE@.subrange(270, 299) =~= "n.last_accessed = timestamp()"@);
    }
}

/// Marking a found fact as used adds one use to it and notes the time.
pub proof fn law_touching_counts_one_use()
    ensures
        text::occurs_in("MATCH (n:Fact {id: $id})"@, TOUCH_NODE@),
        text::occurs_in("SET n.uso_count = coalesce(n.uso_count, 1) + 1"@, TOUCH_NODE@),
        text::occurs_in("n.last_accessed = timestamp()"@, TOUCH_NODE@),
{
    reveal_strlit("MATCH (n:Fact {id: $id}) SET n.uso_count = coalesce(n.uso_count, 1) + 1, n.last_accessed = timestamp()");
    assert(text::occurs_at("MATCH (n:Fact {id: $id})"@, TOUCH_NODE@, 0)) by {
        reveal_strlit("MATCH (n:Fact {id: $id})");
        assert(TOUCH_NODE@.subrange(0, 24) =~= "MATCH (n:Fact {id: $id})"@);
    }
    assert(text::occurs_at("SET n.uso_count = coalesce(n.uso_count, 1) + 1"@, TOUCH_NODE@, 25)) by {
        reveal_strlit("SET n.uso_count = coalesce(n.uso_count, 1) + 1");
        assert(TOUCH_NODE@.subrange(25, 71) =~= "SET n.uso_count = coalesce(n.uso_count, 1) + 1"@);
    }
    assert(text::occurs_at("n.last_accessed = timestamp()"@, TOUCH_NODE@, 73)) by {
        reveal_strlit("n.last_accessed = timestamp()");
        assert(TOUCH_NODE@.subrange(73, 102) =~= "n.last_accessed = timestamp()"@);
    }
}

/// The count of facts is returned as `total_nodes`.
pub proof fn law_nodes_are_counted()
    ensures
        text::occurs_in("MATCH (n:Fact) RETURN count(n) as total_nodes"@, COUNT_NODES@),
{
    reveal_strlit("MATCH (n:Fact) RETURN count(n) as total_nodes");
    assert(COUNT_NODES@.subrange(0, 45) =~= COUNT_NODES@);
    assert(text::occurs_at("MATCH (n:Fact) RETURN count(n) as total_nodes"@, COUNT_NODES@, 0));
}

/// The count of edges is returned as `total_edges`.
pub proof fn law_edges_are_counted()
    ensures
        text::occurs_in("MATCH ()-[r]->() RETURN count(r) as total_edges"@, COUNT_EDGES@),
{
    reveal_strlit("MATCH ()-[r]->() RETURN count(r) as total_edges");
    assert(COUNT_EDGES@.subrange(0, 47) =~= COUNT_EDGES@);
    assert(text::occurs_at("MATCH ()-[r]->() RETURN count(r) as total_edges"@, COUNT_EDGES@, 0));
}

/// The count of facts for paging is returned as `total`.
pub proof fn law_total_is_counted()
    ensures
        text::occurs_in("MATCH (n:Fact) RETURN count(n) AS total"@, COUNT_TOTAL@),
{
    reveal_strlit("MATCH (n:Fact) RETURN count(n) AS total");
    assert(COUNT_TOTAL@.subrange(0, 39) =~= COUNT_TOTAL@);
    assert(text::occurs_at("MATCH (n:Fact) RETURN count(n) AS total"@, COUNT_TOTAL@, 0));
}

/// A page has the most recently used facts first, skips `$offset` of them and holds `$limit`; each fact
/// comes with its identifier, content, counts, times and number of edges.
pub proof fn law_listing_is_ordered_and_paged()
    ensures
        text::occurs_in("MATCH (n:Fact)"@, LIST_NODES@),
        text::occurs_in("n.id AS id"@, LIST_NODES@),
        text::occurs_in("n.content AS content"@, LIST_NODES@),
        text::occurs_in("coalesce(n.uso_count, 1)   AS uso_count"@, LIST_NODES@),
        text::occurs_in("coalesce(n.merge_count, 0) AS merge_count"@, LIST_NODES@),
        text::occurs_in("coalesce(n.created_at, 0)  AS created_at"@, LIST_NODES@),
        text::occurs_in("coalesce(n.last_accessed, 0) AS last_accessed"@, LIST_NODES@),
        text::occurs_in("COUNT { (n)--() } AS degree"@, LIST_NODES@),
        text::occurs_in("ORDER BY coalesce(n.last_accessed, 0) DESC"@, LIST_NODES@),
        text::occurs_in("SKIP $offset LIMIT $limit"@, LIST_NODES@),
{
    reveal_strlit("
            MATCH (n:Fact)
            RETURN n.id AS id,
                   n.content AS content,
                   coalesce(n.uso_count, 1)   AS uso_count,
                   coalesce(n.merge_count, 0) AS merge_count,
                   coalesce(n.created_at, 0)  AS created_at,
                   coalesce(n.last_accessed, 0) AS last_accessed,
                   COUNT { (n)--() } AS degree
            ORDER BY coalesce(n.last_accessed, 0) DESC
            SKIP $offset LIMIT $limit
        ");
    assert(text::occurs_at("MATCH (n:Fact)"@, LIST_NODES@, 13)) by {
        reveal_strlit("MATCH (n:Fact)");
        assert(LIST_NODES@.subrange(13, 27) =~= "MATCH (n:Fact)"@);
    }
    assert(text::occurs_at("n.id AS id"@, LIST_NODES@, 47)) by {
        reveal_strlit("n.id AS id");
        assert(LIST_NODES@.subrange(47, 57) =~= "n.id AS id"@);
    }
    assert(text::occurs_at("n.content AS content"@, LIST_NODES@, 78)) by {
        reveal_strlit("n.content AS content");
        assert(LIST_NODES@.subrange(78, 98) =~= "n.content AS content"@);
    }
    assert(text::occurs_at("coalesce(n.uso_count, 1)   AS uso_count"@, LIST_NODES@, 119)) by {
        reveal_strlit("coalesce(n.uso_count, 1)   AS uso_count");
        assert(LIST_NODES@.subrange(119, 158) =~= "coalesce(n.uso_count, 1)   AS uso_count"@);
    }
    assert(text::occurs_at("coalesce(n.merge_count, 0) AS merge_count"@, LIST_NODES@, 179)) by {
        reveal_strlit("coalesce(n.merge_count, 0) AS merge_count");
        assert(LIST_NODES@.subrange(179, 220) =~= "coalesce(n.merge_count, 0) AS merge_count"@);
    }
    assert(text::occurs_at("coalesce(n.created_at, 0)  AS created_at"@, LIST_NODES@, 241)) by {
        reveal_strlit("coalesce(n.created_at, 0)  AS created_at");
        assert(LIST_NODES@.subrange(241, 281) =~= "coalesce(n.created_at, 0)  AS created_at"@);
    }
    assert(text::occurs_at("coalesce(n.last_accessed, 0) AS last_accessed"@, LIST_NODES@, 302)) by {
        reveal_strlit("coalesce(n.last_accessed, 0) AS last_accessed");
        assert(LIST_NODES@.subrange(302, 347) =~= "coalesce(n.last_accessed, 0) AS last_accessed"@);
    }
    assert(text::occurs_at("COUNT { (n)--() } AS degree"@, LIST_NODES@, 368)) by {
        reveal_strlit("COUNT { (n)--() } AS degree");
        assert(LIST_NODES@.subrange(368, 395) =~= "COUNT { (n)--() } AS degree"@);
    }
    assert(text::occurs_at("ORDER BY coalesce(n.last_accessed, 0) DESC"@, LIST_NODES@, 408)) by {
        reveal_strlit("ORDER BY coalesce(n.last_accessed, 0) DESC");
        assert(LIST_NODES@.subrange(408, 450) =~= "ORDER BY coalesce(n.last_accessed, 0) DESC"@);
    }
    assert(text::occurs_at("SKIP $offset LIMIT $limit"@, LIST_NODES@, 463)) by {
        reveal_strlit("SKIP $offset LIMIT $limit");
        assert(LIST_NODES@.subrange(463, 488) =~= "SKIP $offset LIMIT $limit"@);
    }
}

/// An edit sets content and embedding of the fact with the given identifier together, notes the time,
/// and returns the identifier if there is such a fact.
pub proof fn law_update_sets_text_and_embedding()
    ensures
        text::occurs_in("MATCH (n:Fact {id: $id})"@, UPDATE_NODE@),
        text::occurs_in("SET n.content = $content"@, UPDATE_NODE@),
        text::occurs_in("n.embedding = $embedding"@, UPDATE_NODE@),
        text::occurs_in("n.last_accessed = timestamp()"@, UPDATE_NODE@),
        text::occurs_in("RETURN n.id AS id"@, UPDATE_NODE@),
{
    reveal_strlit("
            MATCH (n:Fact {id: $id})
            SET n.content = $content,
                n.embedding = $embedding,
                n.last_accessed = timestamp()
            RETURN n.id AS id
        ");
    assert(text::occurs_at("MATCH (n:Fact {id: $id})"@, UPDATE_NODE@, 13)) by {
        reveal_strlit("MATCH (n:Fact {id: $id})");
        assert(UPDATE_NODE@.subrange(13, 37) =~= "MATCH (n:Fact {id: $id})"@);
    }
    assert(text::occurs_at("SET n.content = $content"@, UPDATE_NODE@, 50)) by {
        reveal_strlit("SET n.content = $content");
        assert(UPDATE_NODE@.subrange(50, 74) =~= "SET n.content = $content"@);
    }
    assert(text::occurs_at("n.embedding = $embedding"@, UPDATE_NODE@, 92)) by {
        reveal_strlit("n.embedding = $embedding");
        assert(UPDATE_NODE@.subrange(92, 116) =~= "n.embedding = $embedding"@);
    }
    assert(text::occurs_at("n.last_accessed = timestamp()"@, UPDATE_NODE@, 134)) by {
        reveal_strlit("n.last_accessed = timestamp()");
        assert(UPDATE_NODE@.subrange(134, 163) =~= "n.last_accessed = timestamp()"@);
    }
    assert(text::occurs_at("RETURN n.id AS id"@, UPDATE_NODE@, 176)) by {
        reveal_strlit("RETURN n.id AS id");
        assert(UPDATE_NODE@.subrange(176, 193) =~= "RETURN n.id AS id"@);
    }
}

/// A removal counts the edges of the fact with the given identifier, deletes it with them, and returns
/// the count.
pub proof fn law_deletion_takes_the_edges_along()
    ensures
        text::occurs_in("MATCH (n:Fact {id: $id})"@, DELETE_NODE@),
        text::occurs_in("WITH n, COUNT { (n)--() } AS deleted_edges"@, DELETE_NODE@),
        text::occurs_in("DETACH DELETE n"@, DELETE_NODE@),
        text::occurs_in("RETURN deleted_edges"@, DELETE_NODE@),
{
    reveal_strlit("
            MATCH (n:Fact {id: $id})
            WITH n, COUNT { (n)--() } AS deleted_edges
            DETACH DELETE n
            RETURN deleted_edges
        ");
    assert(text::occurs_at("MATCH (n:Fact {id: $id})"@, DELETE_NODE@, 13)) by {
        reveal_strlit("MATCH (n:Fact {id: $id})");
        assert(DELETE_NODE@.subrange(13, 37) =~= "MATCH (n:Fact {id: $id})"@);
    }
    assert(text::occurs_at("WITH n, COUNT { (n)--() } AS deleted_edges"@, DELETE_NODE@, 50)) by {
        reveal_strlit("WITH n, COUNT { (n)--() } AS deleted_edges");
        assert(DELETE_NODE@.subrange(50, 92) =~= "WITH n, COUNT { (n)--() } AS deleted_edges"@);
    }
    assert(text::occurs_at("DETACH DELETE n"@, DELETE_NODE@, 105)) by {
        reveal_strlit("DETACH DELETE n");
        assert(DELETE_NODE@.subrange(105, 120) =~= "DETACH DELETE n"@);
    }
    assert(text::occurs_at("RETURN deleted_edges"@, DELETE_NODE@, 133)) by {
        reveal_strlit("RETURN deleted_edges");
        assert(DELETE_NODE@.subrange(133, 153) =~= "RETURN deleted_edges"@);
    }
}

/// The index is made only once, over the embeddings of facts, with 384 dimensions and cosine
/// similarity.
pub proof fn law_index_is_over_embeddings()
    ensures
        text::occurs_in("CREATE VECTOR INDEX fact_embeddings IF NOT EXISTS"@, CREATE_INDEX@),
        text::occurs_in("FOR (n:Fact) ON (n.embedding)"@, CREATE_INDEX@),
        text::occurs_in("`vector.dimensions`: 384"@, CREATE_INDEX@),
        text::occurs_in("`vector.similarity_function`: 'cosine'"@, CREATE_INDEX@),
{
    reveal_strlit("
                    CREATE VECTOR INDEX fact_embeddings IF NOT EXISTS 
                    FOR (n:Fact) ON (n.embedding) 
                    OPTIONS {indexConfig: {`vector.dimensions`: 384, `vector.similarity_function`: 'cosine'}}
                ");
    assert(text::occurs_at("CREATE VECTOR INDEX fact_embeddings IF NOT EXISTS"@, CREATE_INDEX@, 21)) by {
        reveal_strlit("CREATE VECTOR INDEX fact_embeddings IF NOT EXISTS");
        assert(CREATE_INDEX@.subrange(21, 70) =~= "CREATE VECTOR INDEX fact_embeddings IF NOT EXISTS"@);
    }
    assert(text::occurs_at("FOR (n:Fact) ON (n.embedding)"@, CREATE_INDEX@, 92)) by {
        reveal_strlit("FOR (n:Fact) ON (n.embedding)");
        assert(CREATE_INDEX@.subrange(92, 121) =~= "FOR (n:Fact) ON (n.embedding)"@);
    }
    assert(text::occurs_at("`vector.dimensions`: 384"@, CREATE_INDEX@, 166)) by {
        reveal_strlit("`vector.dimensions`: 384");
        assert(CREATE_INDEX@.subrange(166, 190) =~= "`vector.dimensions`: 384"@);
    }
    assert(text::occurs_at("`vector.similarity_function`: 'cosine'"@, CREATE_INDEX@, 192)) by {
        reveal_strlit("`vector.similarity_function`: 'cosine'");
        assert(CREATE_INDEX@.subrange(192, 230) =~= "`vector.similarity_function`: 'cosine'"@);
    }
}

/// A query asks the vector index; what follows here is the number of facts.
pub proof fn law_query_asks_the_index()
    ensures
        text::occurs_in("CALL db.index.vector.queryNodes('fact_embeddings', "@, QUERY_BEFORE_TOP_K@),
{
    reveal_strlit("CALL db.index.vector.queryNodes('fact_embeddings', ");
    assert(QUERY_BEFORE_TOP_K@.subrange(0, 51) =~= QUERY_BEFORE_TOP_K@);
    assert(text::occurs_at("CALL db.index.vector.queryNodes('fact_embeddings', "@, QUERY_BEFORE_TOP_K@, 0));
}

/// What follows the number in a query is the embedding; identifier, content and score of each fact
/// are returned.
pub proof fn law_query_returns_what_it_finds()
    ensures
        text::occurs_in(", $embedding) YIELD node, score"@, QUERY_AFTER_TOP_K@),
        text::occurs_in("RETURN node.id AS id, node.content AS content, score"@, QUERY_AFTER_TOP_K@),
{
    reveal_strlit(", $embedding) YIELD node, score RETURN node.id AS id, node.content AS content, score");
    assert(text::occurs_at(", $embedding) YIELD node, score"@, QUERY_AFTER_TOP_K@, 0)) by {
        reveal_strlit(", $embedding) YIELD node, score");
        assert(QUERY_AFTER_TOP_K@.subrange(0, 31) =~= ", $embedding) YIELD node, score"@);
    }
    assert(text::occurs_at("RETURN node.id AS id, node.content AS content, score"@, QUERY_AFTER_TOP_K@, 32)) by {
        reveal_strlit("RETURN node.id AS id, node.content AS content, score");
        assert(QUERY_AFTER_TOP_K@.subrange(32, 84) =~= "RETURN node.id AS id, node.content AS content, score"@);
    }
}

} // verus!
