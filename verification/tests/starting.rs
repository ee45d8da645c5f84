use graph_engine::cypher;
use graph_engine::startup::{create_index, neo4j_uri, Startup, ATTEMPTS};

#[test]
fn first_attempt_can_succeed() {
    let connected = Startup::first().next(true);
    assert_eq!(connected, Startup::Index { attempt: 1 });
    assert_eq!(connected.next(true), Startup::Ready);
    assert_eq!(Startup::Ready.next(false), Startup::Ready);
}

#[test]
fn failed_attempt_is_followed_by_a_pause() {
    assert_eq!(Startup::first().next(false), Startup::Pause { attempt: 1 });
    assert_eq!(Startup::Index { attempt: 3 }.next(false), Startup::Pause { attempt: 3 });
    assert_eq!(Startup::Pause { attempt: 3 }.next(true), Startup::Connect { attempt: 4 });
}

#[test]
fn gives_up_after_ten_attempts() {
    let mut step = Startup::first();
    let mut connections = 0;
    let mut pauses = 0;
    while step != Startup::GiveUp {
        match step {
            Startup::Connect { .. } => {
                connections += 1;
                step = step.next(connections % 2 == 0);
            }
            Startup::Index { .. } => step = step.next(false),
            _ => {
                pauses += 1;
                step = step.next(true);
            }
        }
    }
    assert_eq!(connections, 10);
    assert_eq!(pauses, 10);
    assert_eq!(Startup::Pause { attempt: ATTEMPTS }.next(true), Startup::GiveUp);
}

#[test]
fn uri_has_a_default() {
    assert_eq!(neo4j_uri(None), "127.0.0.1:7687");
    assert_eq!(neo4j_uri(Some("db:1".to_string())), "db:1");
}

#[test]
fn index_statement() {
    let statement = create_index();
    assert_eq!(statement.text, cypher::CREATE_INDEX);
    assert!(statement.text.contains("`vector.dimensions`: 384"));
    assert!(statement.params.is_empty());
}
