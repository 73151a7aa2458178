use miller::memory::{MemoryPayload, ScoredChunk};
use miller::retrieval::{
    build_context, count_qualified, is_qualified, INFINITY_BITS, MIN_RETRIEVAL_SCORE_BITS,
    SEARCH_LIMIT,
};

fn chunk(score: f32, path: &str, name: &str) -> ScoredChunk {
    ScoredChunk {
        score_bits: score.to_bits(),
        payload: MemoryPayload {
            file_path: path.to_string(),
            entity_name: name.to_string(),
            entity_type: "function".to_string(),
            content: format!("fn {}() {{}}", name),
        },
    }
}

#[test]
fn threshold_separates() {
    assert_eq!(MIN_RETRIEVAL_SCORE_BITS, 0.35_f32.to_bits());
    assert_eq!(INFINITY_BITS, f32::INFINITY.to_bits());
    assert_eq!(SEARCH_LIMIT, 2);
    let mut bits: u64 = 0;
    while bits <= u32::MAX as u64 {
        let score = f32::from_bits(bits as u32);
        assert_eq!(is_qualified(bits as u32), score >= 0.35, "{}", score);
        bits += 9973;
    }
    for score in [
        0.0_f32, -0.0, 0.35, 0.34999999, 0.3499999, 0.35000002, 1.0, -0.35, -1.0, f32::NAN,
        -f32::NAN, f32::INFINITY, f32::NEG_INFINITY, f32::MIN_POSITIVE, f32::MAX, 1e-45,
    ] {
        assert_eq!(is_qualified(score.to_bits()), score >= 0.35, "{}", score);
    }
}

#[test]
fn poor_results_are_discarded() {
    assert_eq!(build_context(&vec![]), "");
    assert_eq!(build_context(&vec![chunk(0.2, "p", "a"), chunk(0.0, "q", "b")]), "");
    assert_eq!(count_qualified(&vec![chunk(0.2, "p", "a"), chunk(0.4, "q", "b")]), 1);
    assert_eq!(
        build_context(&vec![chunk(0.2, "p", "a"), chunk(0.4, "q", "b")]),
        build_context(&vec![chunk(0.4, "q", "b")])
    );
}

#[test]
fn good_results_are_injected() {
    assert_eq!(
        build_context(&vec![chunk(0.9, "src/p.rs", "a"), chunk(0.35, "src/q.rs", "b")]),
        "\n--- RELEVANT EXISTING CONTEXT CODE ---\n\
         // From File: src/p.rs\n// Entity: a\nfn a() {}\n\n\
         // From File: src/q.rs\n// Entity: b\nfn b() {}\n\n\
         ---------------------------------------\n"
    );
}

#[test]
fn own_files_are_kept_out() {
    assert_eq!(
        build_context(&vec![
            chunk(0.9, "x/miller_core/src/main.rs", "a"),
            chunk(0.8, "miller_parser/lib.rs", "b"),
        ]),
        "\n--- RELEVANT EXISTING CONTEXT CODE ---\n---------------------------------------\n"
    );
}
