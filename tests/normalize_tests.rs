use doc_chunker::normalize::{
    clean_content, clean_double_newline_markdown_links, clean_multi_column_links, reflow_links,
    link_with_joined_label, clean_anchortag_headings, clean_double_asterisk_whitespace_gaps,
    clean_extra_newlines_after_links, clean_newline_and_spaces_after_links,
    remove_anchor_tag_from_headings, remove_end_matter,
};
use doc_chunker::stats::chunk_stats;
use doc_chunker::text::replace_chars;

#[test]
fn end_matter_cut_at_first_marker() {
    let text = "Body text.\n\n[Prev: one](a) [Next](b)\n\nmore".to_string();
    assert_eq!(remove_end_matter(text), "Body text.\n\n[Prev: one](a) [Next](b)\n\nmore");
    let text = "Body text.\n\n\\[Prev\nfooter".to_string();
    assert_eq!(remove_end_matter(text), "Body text.");
    let text = "Intro\n\\[]\\(#get-help\\) x \\[Prev y".to_string();
    assert_eq!(remove_end_matter(text), "Intro");
}

#[test]
fn end_matter_support_notice_and_none() {
    let text = "  Setup done.\nIf you have any questions or need any help in setting things up, join our slack community and ping us in `#help` channel.\nBye".to_string();
    assert_eq!(remove_end_matter(text), "Setup done.");
    assert_eq!(remove_end_matter("  plain \n".to_string()), "plain");
    assert_eq!(remove_end_matter(String::new()), "");
}

#[test]
fn anchor_before_heading_is_inlined() {
    let r = clean_anchortag_headings("[](#setup)\n## Setup\nrest".to_string());
    assert_eq!(r, "#setup ## Setuprest");
}

#[test]
fn bold_link_gap_is_closed() {
    let r = clean_double_asterisk_whitespace_gaps("**[a](b)\n  **".to_string());
    assert_eq!(r, "**[a](b)**");
}

#[test]
fn link_joined_with_following_text() {
    let r = clean_newline_and_spaces_after_links("[a](b)\n   and more".to_string());
    assert_eq!(r, "[a](b) and more");
}

#[test]
fn link_newlines_removed() {
    let r = clean_extra_newlines_after_links("see [a](b)\n. and [c](d)\n x".to_string());
    assert_eq!(r, "see [a](b). and [c](d) x");
}

#[test]
fn heading_anchor_hash_removed() {
    let r = remove_anchor_tag_from_headings("### MongoDB # instrumentation".to_string());
    assert_eq!(r, "### MongoDB instrumentation");
}

#[test]
fn broken_link_label_is_joined() {
    assert_eq!(link_with_joined_label("Guide\\\n\\\nPart two", "/g"), "[Guide Part two](/g)");
    let r = clean_double_newline_markdown_links("x [Guide\\\n\\\nPart two](/g) y".to_string());
    assert_eq!(r, "x [Guide Part two](/g) y");
}

#[test]
fn replace_chars_is_left_to_right() {
    let s: Vec<char> = "aaa-aa".chars().collect();
    let r = replace_chars(&s, &"aa".chars().collect(), &"b".chars().collect());
    assert_eq!(r.iter().collect::<String>(), "ba-b");
    let r = replace_chars(&s, &Vec::new(), &"b".chars().collect());
    assert_eq!(r.iter().collect::<String>(), "aaa-aa");
}

#[test]
fn double_newline_label_example() {
    let r = clean_double_newline_markdown_links("[Foo\\\n\\\nBar](http://x)".to_string());
    assert_eq!(r, "[Foo Bar](http://x)");
}

#[test]
fn link_run_becomes_bullets() {
    assert_eq!(
        reflow_links("\n\n", "[Docs\\\n\\\nStart](/a) [API\\\nRef](/b)"),
        "\n\n- [Docs: Start](/a)\n- [API Ref](/b)"
    );
    assert_eq!(reflow_links("\n\n", "no links"), "\n\n");
    let r = clean_multi_column_links("Intro\n\n[One\\\nA](/1) [Two\\\nB](/2)\n\nOutro".to_string());
    assert_eq!(r, "Intro\n\n- [One A](/1)\n- [Two B](/2)Outro");
}

#[test]
fn clean_content_chains_every_step() {
    let r = clean_content("[](#setup)\n## Setup\n[a](b)\n  next\n\\[Prev x".to_string());
    assert_eq!(r, "#setup ## Setup[a](b) next");
    let r = clean_content("## Setup # here\nsee [a](b)\n.\n".to_string());
    assert_eq!(r, "## Setup here\nsee [a](b).");
}

#[test]
fn chunk_stats_counts_words_and_headings() {
    let chunks = vec!["# A b".to_string(), "one two three".to_string(), "  \n## x".to_string()];
    let s = chunk_stats(&chunks);
    assert_eq!((s.chunks, s.total_words, s.hash_chunks, s.fewest_words, s.most_words), (3, 8, 2, 2, 3));
    let e = chunk_stats(&Vec::new());
    assert_eq!((e.chunks, e.total_words, e.hash_chunks, e.fewest_words, e.most_words), (0, 0, 0, 0, 0));
}
