use workflow_compiler::ingest::IngestResult;
use workflow_compiler::intent::IntentParser;
use workflow_compiler::text::{dec_str, split_str, tokens_of, trim_str, SplitMode};

#[test]
fn trim_removes_surrounding_spaces() {
    assert_eq!(trim_str("  a b  "), "a b");
    assert_eq!(trim_str("   "), "");
    assert_eq!(trim_str("x"), "x");
}

#[test]
fn sentence_splitting_respects_dots_inside_tokens() {
    let parts = split_str("Fetch readme.md, then stop", SplitMode::Sentence);
    assert_eq!(parts, vec![String::from("Fetch readme.md, then stop")]);
    let parts2 = split_str("One. Two.", SplitMode::Sentence);
    assert_eq!(parts2, vec![String::from("One"), String::from(" Two"), String::from("")]);
}

#[test]
fn tokens_drop_empty_runs() {
    assert_eq!(tokens_of("  a  bb "), vec![String::from("a"), String::from("bb")]);
    assert_eq!(tokens_of(""), Vec::<String>::new());
}

#[test]
fn decimal_rendering_is_exact() {
    assert_eq!(dec_str(0), "0");
    assert_eq!(dec_str(7), "7");
    assert_eq!(dec_str(10), "10");
    assert_eq!(dec_str(305), "305");
}

#[test]
fn parse_extracts_subtasks_hints_and_artifacts() {
    let evidence = vec![IngestResult {
        source: String::from("https://x/readme.md"),
        chunks: vec![String::from("mentions file.py here")],
    }];
    let it = IntentParser::parse(
        "Fetch https://x/readme.md, summarize it, then patch file.py to fix the bug",
        &evidence,
    )
    .expect("one connected sentence");
    assert_eq!(it.subtasks.len(), 3);
    assert_eq!(it.subtasks[0].text, "Fetch https://x/readme.md");
    assert_eq!(it.subtasks[1].text, "summarize it");
    assert_eq!(it.subtasks[2].text, "patch file.py to fix the bug");
    // Sequencing hints give the linear chain.
    assert_eq!(it.hints.len(), 2);
    assert_eq!((it.hints[0].from_index, it.hints[0].to_index), (0, 1));
    assert_eq!((it.hints[1].from_index, it.hints[1].to_index), (1, 2));
    // The URL resolves against the evidence source, the file against a
    // chunk's text.
    assert_eq!(it.subtasks[0].artifacts.len(), 1);
    assert_eq!(it.subtasks[0].artifacts[0].name, "https://x/readme.md");
    assert!(it.subtasks[0].artifacts[0].resolved);
    assert_eq!(it.subtasks[2].artifacts.len(), 1);
    assert_eq!(it.subtasks[2].artifacts[0].name, "file.py");
    assert!(it.subtasks[2].artifacts[0].resolved);
}

#[test]
fn an_after_clause_is_a_hint_not_a_subtask() {
    let evidence: Vec<IngestResult> = Vec::new();
    let it = IntentParser::parse("A, and B, A after B", &evidence).expect("parses");
    assert_eq!(it.subtasks.len(), 2);
    assert_eq!(it.subtasks[0].text, "A");
    assert_eq!(it.subtasks[1].text, "B");
    // "A after B": B's subtask must come first.
    assert_eq!(it.hints.len(), 1);
    assert_eq!((it.hints[0].from_index, it.hints[0].to_index), (1, 0));
}
