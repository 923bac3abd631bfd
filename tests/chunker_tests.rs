use doc_chunker::chunk_text;
use doc_chunker::config;

#[test]
fn test_simple_chunking() {
    let simple_text = r#"
# Introduction

This is a simple example.

It has multiple paragraphs.

## First Section

Some paragraphs are short.

Others might be longer and contain more information.

## Second Section

This is the start of another section.

It continues with more content.
"#;

    let config = config::ChunkConfig {
        min_words: 10,
        max_words: 50,
        hard_limit: 100,
    };

    let chunks = chunk_text(simple_text, &config);
    assert_eq!(chunks.len(), 3);
    assert!(chunks[0].starts_with("# Introduction"));
    assert!(chunks[1].starts_with("## First Section"));
    assert!(chunks[2].starts_with("## Second Section"));
}

#[test]
fn test_markdown_formatting() {
    let markdown_text = r#"
# Test Markdown

This is a test with **Bold text** and *italic text*.
"#;

    let config = config::ChunkConfig {
        min_words: 5,
        max_words: 20,
        hard_limit: 30,
    };

    let chunks = chunk_text(markdown_text, &config);
    assert_eq!(chunks.len(), 1);
    assert!(chunks[0].contains("**Bold text**"));
    assert!(chunks[0].contains("*italic text*"));
}

#[test]
fn test_chunking_with_code_blocks() {
    let text_with_code = r#"
# Code Example

Here's a simple Rust function:

```rust
fn hello_world() {
    println!("Hello, world!");
}
```

And some more text after the code block.
"#;

    let config = config::ChunkConfig {
        min_words: 10,
        max_words: 50,
        hard_limit: 100,
    };
    let chunks = chunk_text(text_with_code, &config);
    assert_eq!(chunks.len(), 1);
    assert!(chunks[0].contains("```rust"));
    assert!(chunks[0].contains("```\n"));
}
