use doc_chunker::chunker::ChunkState;
use doc_chunker::config::{get_config, ChunkConfig, ConfigError};
use doc_chunker::event::MdEvent;
use doc_chunker::text::{count_words, is_heading_only, is_whitespace, trimmed};
use doc_chunker::{chunk_events, chunk_text, try_chunk_text};

fn cfg(min_words: usize, max_words: usize, hard_limit: usize) -> ChunkConfig {
    ChunkConfig { min_words, max_words, hard_limit }
}

fn words(s: &str) -> usize {
    s.split_whitespace().count()
}

fn para(text: &str) -> Vec<MdEvent> {
    vec![MdEvent::ParagraphStart, MdEvent::Text(text.to_string()), MdEvent::ParagraphEnd]
}

#[test]
fn default_config_values() {
    let c = get_config();
    assert_eq!((c.min_words, c.max_words, c.hard_limit), (250, 500, 7400));
    let d = ChunkConfig::default();
    assert_eq!((d.min_words, d.max_words, d.hard_limit), (250, 500, 7400));
    assert_eq!(c.validate(), Ok(()));
}

#[test]
fn validate_reports_each_error() {
    assert_eq!(cfg(0, 5, 10).validate(), Err(ConfigError::ZeroThreshold));
    assert_eq!(cfg(1, 5, 0).validate(), Err(ConfigError::ZeroThreshold));
    assert_eq!(cfg(6, 5, 10).validate(), Err(ConfigError::MinAboveMax));
    assert_eq!(cfg(1, 11, 10).validate(), Err(ConfigError::MaxAboveHardLimit));
    assert_eq!(cfg(5, 5, 5).validate(), Ok(()));
}

#[test]
fn try_chunk_text_checks_config() {
    assert_eq!(try_chunk_text("# A\n\nb c", &cfg(3, 2, 10)), Err(ConfigError::MinAboveMax));
    assert_eq!(try_chunk_text("# A\n\nb c", &cfg(1, 5, 10)), Ok(vec!["# A\n\nb c".to_string()]));
}

#[test]
fn empty_input_gives_no_chunks() {
    assert!(chunk_text("", &get_config()).is_empty());
    assert!(chunk_text("   \n\n  ", &get_config()).is_empty());
}

#[test]
fn heading_merges_with_following_heading() {
    let chunks = chunk_text("## Ingestion\n\n### Platform\n\nSome words here.", &cfg(1, 50, 100));
    assert_eq!(chunks, vec!["## Ingestion\n\n### Platform\n\nSome words here.".to_string()]);
}

#[test]
fn document_ending_in_heading_keeps_trailing_heading() {
    let chunks = chunk_text("# One\n\nBody text.\n\n# Two", &cfg(1, 50, 100));
    assert_eq!(chunks, vec!["# One\n\nBody text.".to_string(), "# Two".to_string()]);
}

#[test]
fn threshold_splits_only_after_min_words() {
    // 3 words, then 3 more: 6 > max 4 and 3 >= min 2, so a split.
    let mut evs = para("a b c");
    evs.extend(para("d e f"));
    let chunks = chunk_events(&evs, &cfg(2, 4, 10));
    assert_eq!(chunks, vec!["a b c".to_string(), "d e f".to_string()]);
    // With min 5 the first run is below the minimum, so no split.
    let chunks = chunk_events(&evs, &cfg(5, 5, 10));
    assert_eq!(chunks, vec!["a b c\n\nd e f".to_string()]);
}

#[test]
fn hard_limit_splits_paragraph_by_words() {
    let mut evs = vec![MdEvent::HeadingStart(1), MdEvent::Text("T".to_string()), MdEvent::HeadingEnd];
    evs.extend(para("w1 w2 w3 w4 w5 w6 w7"));
    let chunks = chunk_events(&evs, &cfg(3, 3, 3));
    assert_eq!(
        chunks,
        vec!["# T\n\nw1 w2".to_string(), "w3 w4 w5".to_string(), "w6 w7".to_string()]
    );
    assert!(chunks[1..].iter().all(|c| words(c) <= 3));
    let joined: Vec<&str> = chunks.iter().flat_map(|c| c.split_whitespace()).collect();
    assert_eq!(joined, vec!["#", "T", "w1", "w2", "w3", "w4", "w5", "w6", "w7"]);
}

#[test]
fn hard_limit_splits_first_paragraph() {
    let chunks = chunk_text("one two three four five", &cfg(1, 2, 2));
    assert_eq!(chunks, vec!["one two".to_string(), "three four".to_string(), "five".to_string()]);
}

#[test]
fn lists_blockquotes_and_breaks_render() {
    let evs = vec![
        MdEvent::ListStart,
        MdEvent::ItemStart,
        MdEvent::Text("a".to_string()),
        MdEvent::ListStart,
        MdEvent::ItemStart,
        MdEvent::Text("b".to_string()),
        MdEvent::ListEnd,
        MdEvent::ListEnd,
        MdEvent::BlockquoteStart,
        MdEvent::Text("q".to_string()),
        MdEvent::SoftBreak,
        MdEvent::InlineCode("x y".to_string()),
        MdEvent::HardBreak,
        MdEvent::Other,
        MdEvent::IndentedCodeStart,
        MdEvent::Text("code".to_string()),
        MdEvent::CodeBlockEnd,
    ];
    let chunks = chunk_events(&evs, &cfg(10, 20, 30));
    assert_eq!(chunks, vec!["- a\n  - b> q `x y`\n\n```\ncode```".to_string()]);
}

#[test]
fn fenced_code_keeps_language() {
    let chunks = chunk_text("```py\nprint(1)\n```\n", &cfg(1, 5, 10));
    assert_eq!(chunks, vec!["```py\nprint(1)\n```".to_string()]);
}

#[test]
fn emphasis_markers_are_rendered() {
    let chunks = chunk_text("A **b c** and *d*.", &cfg(1, 10, 20));
    assert_eq!(chunks, vec!["A **b c** and *d*.".to_string()]);
}

#[test]
fn inline_code_is_rendered() {
    let chunks = chunk_text("Use `cargo` now.", &cfg(1, 5, 10));
    assert_eq!(chunks, vec!["Use `cargo` now.".to_string()]);
}

#[test]
fn accumulator_take_trims_and_resets() {
    let mut st = ChunkState::new();
    assert!(st.is_empty());
    st.append(&"  ab c \n".chars().collect());
    assert!(!st.is_empty());
    let t = st.take();
    assert_eq!(t.iter().collect::<String>(), "ab c");
    assert!(st.is_empty());
    assert_eq!(st.word_count(), 0);
}

#[test]
fn text_helpers() {
    assert!(is_whitespace('\u{3000}'));
    assert!(is_whitespace('\n'));
    assert!(!is_whitespace('x'));
    assert_eq!(count_words(&" a  bb\u{a0}c ".chars().collect()), 3);
    assert_eq!(count_words(&Vec::new()), 0);
    assert_eq!(trimmed(&"\t x y \n".chars().collect()).iter().collect::<String>(), "x y");
    assert!(is_heading_only(&"# a\n## b".chars().collect()));
    assert!(!is_heading_only(&"# a\n\n## b".chars().collect()));
    assert!(!is_heading_only(&"# a\nb".chars().collect()));
}

#[test]
fn every_chunk_nonempty_and_trimmed() {
    let text = "# A\n\nOne two three.\n\n<div>x</div>\n\n## B\n\n- i\n- j\n\n> quote here\n";
    let chunks = chunk_text(text, &cfg(1, 2, 3));
    assert!(!chunks.is_empty());
    for c in &chunks {
        assert!(!c.trim().is_empty());
        assert_eq!(c.trim(), c.as_str());
    }
}

#[test]
fn large_document_under_default_thresholds() {
    let mut doc = String::new();
    for ch in 1..=40 {
        doc.push_str(&format!("# CHAPTER {}

", ch));
        for p in 0..12 {
            doc.push_str(&format!("Paragraph {} of chapter {} tells", p, ch));
            for w in 0..60 {
                doc.push_str(&format!(" word{}", w));
            }
            doc.push_str(".\n\n");
        }
    }
    assert!(words(&doc) > 20000);
    let config = get_config();
    let chunks = chunk_text(&doc, &config);
    assert!(chunks.len() > 10);
    for c in &chunks {
        assert!(words(c) <= config.hard_limit);
        let first = c.trim_start().chars().next().unwrap();
        assert!(first == '#' || first.is_uppercase() || !c.trim().is_empty());
    }
}

#[test]
fn long_paragraph_split_under_default_thresholds() {
    let mut doc = String::from("# Big\n\n");
    for w in 0..8000 {
        doc.push_str(&format!("w{} ", w));
    }
    let config = get_config();
    let chunks = chunk_text(&doc, &config);
    assert!(chunks.len() >= 2);
    for c in &chunks {
        assert!(words(c) <= config.hard_limit + 1);
    }
    let all: Vec<&str> = chunks.iter().flat_map(|c| c.split_whitespace()).collect();
    assert_eq!(all.len(), 8002);
    assert_eq!(all[2], "w0");
    assert_eq!(all[8001], "w7999");
}

#[test]
fn long_heading_can_close_alone_at_threshold() {
    // The heading's own words reach min_words, so the next run may close it.
    let chunks = chunk_text("# A B\n\nC", &cfg(1, 2, 10));
    assert_eq!(chunks, vec!["# A B".to_string(), "C".to_string()]);
}

#[test]
fn code_block_text_is_never_split() {
    let chunks = chunk_text("```\na b c d e f\n```\n", &cfg(1, 2, 3));
    assert_eq!(chunks, vec!["```\na b c d e f\n```".to_string()]);
}

#[test]
fn soft_break_joins_lines_of_a_paragraph() {
    let chunks = chunk_text("one\ntwo", &cfg(1, 5, 10));
    assert_eq!(chunks, vec!["one two".to_string()]);
}

#[test]
fn single_paragraph_keeps_its_words() {
    let text = "alpha  beta\tgamma delta epsilon zeta";
    let chunks = chunk_events(&para(text), &cfg(1, 2, 2));
    assert_eq!(chunks, vec!["alpha beta".to_string(), "gamma delta".to_string(), "epsilon zeta".to_string()]);
    let joined: Vec<&str> = chunks.iter().flat_map(|c| c.split_whitespace()).collect();
    assert_eq!(joined, text.split_whitespace().collect::<Vec<_>>());
    let whole = chunk_events(&para(text), &cfg(1, 10, 10));
    assert_eq!(whole, vec![text.to_string()]);
}
