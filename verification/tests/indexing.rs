use miller::ast_graph::CodeNode;
use miller::indexing::{
    payload_of, IndexCommand, IndexEvent, Indexer, BATCH_PAUSE_MS, BATCH_SIZE,
};

fn node(n: usize) -> CodeNode {
    CodeNode {
        file_path: format!("p{}", n),
        entity_name: format!("n{}", n),
        entity_type: "struct".to_string(),
        content: format!("c{}", n),
        dependencies: vec!["d".to_string()],
    }
}

fn nodes(n: usize) -> Vec<CodeNode> {
    (0..n).map(node).collect()
}

#[test]
fn node_becomes_a_payload() {
    let p = payload_of(&node(7));
    assert_eq!(
        (p.file_path.as_str(), p.entity_name.as_str(), p.entity_type.as_str(), p.content.as_str()),
        ("p7", "n7", "struct", "c7")
    );
}

#[test]
fn nothing_is_indexed_of_nothing() {
    let mut i = Indexer::new(vec![], u64::MAX);
    assert!(matches!(i.advance(IndexEvent::Begin), IndexCommand::Finish));
    assert!(matches!(i.advance(IndexEvent::Begin), IndexCommand::Ignore));
}

#[test]
fn stored_points_have_their_own_ids() {
    let mut i = Indexer::new(nodes(6), 100);
    let mut command = i.advance(IndexEvent::Begin);
    let mut sent: Vec<(u64, String)> = Vec::new();
    let mut asked: Vec<String> = Vec::new();
    for stored in [Some(true), Some(false), None, Some(false), Some(true), Some(true)] {
        match command {
            IndexCommand::Embed { text } => asked.push(text),
            other => panic!("{:?}", other),
        }
        command = match stored {
            None => i.advance(IndexEvent::NotEmbedded),
            Some(stored) => {
                match i.advance(IndexEvent::Embedded { vector: vec![4, 5] }) {
                    IndexCommand::Store { id, vector, payload } => {
                        assert_eq!(vector, vec![4, 5]);
                        sent.push((id, payload.content));
                    }
                    other => panic!("{:?}", other),
                }
                i.advance(if stored { IndexEvent::Stored } else { IndexEvent::NotStored })
            }
        };
    }
    assert!(matches!(command, IndexCommand::Finish));
    assert_eq!(asked, vec!["c0", "c1", "c2", "c3", "c4", "c5"]);
    let expected: Vec<(u64, String)> = vec![
        (100, "c0".to_string()),
        (101, "c1".to_string()),
        (101, "c3".to_string()),
        (101, "c4".to_string()),
        (102, "c5".to_string()),
    ];
    assert_eq!(sent, expected);
}

#[test]
fn indexing_pauses_after_each_batch() {
    assert_eq!((BATCH_SIZE, BATCH_PAUSE_MS), (30, 400));
    for (count, expected) in [(29, vec![]), (30, vec![30]), (61, vec![30, 60])] {
        let mut i = Indexer::new(nodes(count), 0);
        let mut command = i.advance(IndexEvent::Begin);
        let mut dealt_with = 0;
        let mut pauses: Vec<usize> = Vec::new();
        loop {
            command = match command {
                IndexCommand::Embed { .. } => {
                    dealt_with += 1;
                    i.advance(IndexEvent::NotEmbedded)
                }
                IndexCommand::Pause { millis } => {
                    assert_eq!(millis, 400);
                    pauses.push(dealt_with);
                    i.advance(IndexEvent::Rested)
                }
                IndexCommand::Finish => break,
                other => panic!("{:?}", other),
            };
        }
        assert_eq!(dealt_with, count);
        assert_eq!(pauses, expected);
    }
}

#[test]
fn unawaited_index_events_are_ignored() {
    let mut i = Indexer::new(nodes(1), 0);
    assert!(matches!(i.advance(IndexEvent::Stored), IndexCommand::Ignore));
    assert!(matches!(i.advance(IndexEvent::Begin), IndexCommand::Embed { .. }));
    assert!(matches!(i.advance(IndexEvent::Stored), IndexCommand::Ignore));
    assert!(matches!(i.advance(IndexEvent::NotEmbedded), IndexCommand::Finish));
}
