use workflow_compiler::ingest::{ContextIngest, PdfAdapter, RepoAdapter, UrlAdapter};

#[test]
fn fetch_strips_markup_tags() {
    assert_eq!(UrlAdapter::fetch("<p>hello</p> world"), "hello world");
    assert_eq!(UrlAdapter::fetch("no tags at all"), "no tags at all");
    assert_eq!(UrlAdapter::fetch("<a href=\"x\">"), "");
}

#[test]
fn extract_keeps_printable_text() {
    assert_eq!(PdfAdapter::extract("a\u{0}b\tc"), "abc");
    assert_eq!(PdfAdapter::extract("line one\nline two"), "line one\nline two");
}

#[test]
fn ingest_repo_normalizes_a_listing() {
    assert_eq!(RepoAdapter::ingest_repo("  src/lib.rs  \n\n  README.md \n"), "src/lib.rs\nREADME.md");
    assert_eq!(RepoAdapter::ingest_repo("\n\n"), "");
}

#[test]
fn ingest_url_chunks_and_deduplicates() {
    let r = ContextIngest::ingest_url("https://x/doc", "<h1>t</h1>\nalpha\nbeta\nalpha\n");
    assert_eq!(r.source, "https://x/doc");
    assert_eq!(r.chunks, vec![String::from("t"), String::from("alpha"), String::from("beta")]);
}
