use dagentic::metadata::{parse_comment, parse_metadata_line};

#[test]
fn parse_full_metadata_line() {
    let line =
        "<!-- dagentic:phase=planning tokens_in=1234 tokens_out=567 model=large-model-4-6 -->";
    let result = parse_metadata_line(line).unwrap();
    assert_eq!(result.phase, "planning");
    assert_eq!(result.tokens_in, Some(1234));
    assert_eq!(result.tokens_out, Some(567));
    assert_eq!(result.model.as_deref(), Some("large-model-4-6"));
}

#[test]
fn parse_partial_metadata() {
    let line = "<!-- dagentic:phase=implementation tokens_out=999 -->";
    let result = parse_metadata_line(line).unwrap();
    assert_eq!(result.phase, "implementation");
    assert_eq!(result.tokens_in, None);
    assert_eq!(result.tokens_out, Some(999));
}

#[test]
fn parse_phase_only() {
    let line = "<!-- dagentic:phase=review-fixup -->";
    let result = parse_metadata_line(line).unwrap();
    assert_eq!(result.phase, "review-fixup");
    assert_eq!(result.tokens_in, None);
    assert_eq!(result.tokens_out, None);
    assert_eq!(result.model, None);
}

#[test]
fn rejects_non_metadata_lines() {
    assert!(parse_metadata_line("just a regular comment").is_none());
    assert!(parse_metadata_line("<!-- not dagentic -->").is_none());
    assert!(parse_metadata_line("<!-- dagentic: -->").is_none()); // no phase
}

#[test]
fn parse_from_full_comment_body() {
    let body = "Here is the plan for issue #12.\n\
                 \n\
                 ## Steps\n\
                 1. Do the thing\n\
                 2. Test the thing\n\
                 \n\
                 <!-- dagentic:phase=planning tokens_in=5000 tokens_out=2000 model=large-model-4-6 -->";
    let entries = parse_comment(body);
    assert_eq!(entries.len(), 1);
    assert_eq!(entries[0].phase, "planning");
    assert_eq!(entries[0].tokens_in, Some(5000));
}

#[test]
fn ignores_non_metadata_in_comment() {
    let body = "No metadata here.\nJust text.";
    assert!(parse_comment(body).is_empty());
}

#[test]
fn later_pairs_override_earlier_ones() {
    let r = parse_metadata_line("<!-- dagentic:phase=a tokens_in=5 phase=b tokens_in=x -->").unwrap();
    assert_eq!(r.phase, "b");
    assert_eq!(r.tokens_in, None);
}

#[test]
fn token_counts_follow_u64_parsing() {
    let r = parse_metadata_line(
        "<!-- dagentic:phase=p tokens_in=+42 tokens_out=18446744073709551616 -->",
    )
    .unwrap();
    assert_eq!(r.tokens_in, Some(42));
    assert_eq!(r.tokens_out, None);
    let r = parse_metadata_line("<!-- dagentic:phase=p tokens_in=18446744073709551615 tokens_out=-1 -->")
        .unwrap();
    assert_eq!(r.tokens_in, Some(u64::MAX));
    assert_eq!(r.tokens_out, None);
}

#[test]
fn pairs_without_equals_and_unknown_keys_are_ignored() {
    let r = parse_metadata_line("<!-- dagentic:  junk phase=x=y color=red model=m -->").unwrap();
    assert_eq!(r.phase, "x=y");
    assert_eq!(r.model.as_deref(), Some("m"));
}

#[test]
fn untrimmed_line_is_no_metadata_line() {
    assert!(parse_metadata_line("  <!-- dagentic:phase=p -->").is_none());
    assert!(parse_metadata_line("<!-- dagentic:phase=p -->  ").is_none());
    assert!(parse_metadata_line("<!-- dagentic:phase=p-->").is_none());
}

#[test]
fn comment_lines_are_trimmed_and_crlf_split() {
    let body = "  <!-- dagentic:phase=a -->\r\nx\r\n\t<!-- dagentic:phase=b tokens_out=7 -->\u{3000}\n";
    let entries = parse_comment(body);
    assert_eq!(entries.len(), 2);
    assert_eq!(entries[0].phase, "a");
    assert_eq!(entries[1].phase, "b");
    assert_eq!(entries[1].tokens_out, Some(7));
}

#[test]
fn empty_comment_has_no_metadata() {
    assert!(parse_comment("").is_empty());
    assert!(parse_comment("\n\n").is_empty());
}
