//! What holds of every chunking, proved over the model in `chunker`.

use vstd::prelude::*;
use crate::config::ChunkConfig;
use crate::chunker::{
    start, chunks_of, chunks_of_text, flush, heading_start, run, scan, split_text, step, text_run,
    Progress,
};
use crate::event::MdEvent;
use crate::text::{
    ends_in_ws, heading_only, is_trimmed_nonempty, is_ws, lemma_trim_edges, lemma_words_concat,
    lemma_words_push, lemma_words_push_ws, lemma_words_trim, trim, word_count, words_of,
};

verus! {

/// Every chunk in `cs` is non-empty and has no leading or trailing whitespace.
pub open spec fn all_trimmed_nonempty(cs: Seq<Seq<char>>) -> bool {
    forall|i: int| 0 <= i < cs.len() ==> is_trimmed_nonempty(#[trigger] cs[i])
}

proof fn lemma_flush_nonempty(p: Progress)
    requires
        all_trimmed_nonempty(p.chunks),
    ensures
        all_trimmed_nonempty(flush(p).chunks),
{
    lemma_trim_edges(p.acc.buffer);
    let cs = flush(p).chunks;
    assert forall|i: int| 0 <= i < cs.len() implies is_trimmed_nonempty(#[trigger] cs[i]) by {
        if i < p.chunks.len() {
            assert(cs[i] == p.chunks[i]);
        }
    }
}

proof fn lemma_scan_nonempty(p: Progress, t: Seq<char>, cfg: ChunkConfig)
    requires
        all_trimmed_nonempty(p.chunks),
    ensures
        all_trimmed_nonempty(scan(p, t, cfg).chunks),
    decreases t.len(),
{
    if t.len() > 0 {
        lemma_scan_nonempty(p, t.drop_last(), cfg);
        lemma_flush_nonempty(scan(p, t.drop_last(), cfg));
    }
}

proof fn lemma_step_nonempty(p: Progress, e: MdEvent, cfg: ChunkConfig)
    requires
        all_trimmed_nonempty(p.chunks),
    ensures
        all_trimmed_nonempty(step(p, e, cfg).chunks),
{
    lemma_flush_nonempty(p);
    match e {
        MdEvent::Text(t) => {
            let w = word_count(t@);
            let q = if p.acc.words + w > cfg.max_words && p.acc.words >= cfg.min_words {
                flush(p)
            } else {
                p
            };
            lemma_scan_nonempty(q, t@, cfg);
        },
        _ => {},
    }
}

proof fn lemma_run_nonempty(evs: Seq<MdEvent>, cfg: ChunkConfig)
    ensures
        all_trimmed_nonempty(run(evs, cfg).chunks),
    decreases evs.len(),
{
    if evs.len() > 0 {
        lemma_run_nonempty(evs.drop_last(), cfg);
        lemma_step_nonempty(run(evs.drop_last(), cfg), evs.last(), cfg);
    }
}

/// No chunk is empty or all whitespace: each one is non-empty and starts and
/// ends with a non-whitespace character.
pub proof fn lemma_chunks_nonempty(text: Seq<char>, cfg: ChunkConfig)
    ensures
        all_trimmed_nonempty(chunks_of_text(text, cfg)),
{
    lemma_run_nonempty(crate::event::markdown_events(text), cfg);
    lemma_flush_nonempty(run(crate::event::markdown_events(text), cfg));
}

/// A chunk closed at a heading never holds headings alone: the heading rule
/// either closes no chunk, or closes one that has a line not starting with `#`.
pub proof fn lemma_heading_boundary_not_heading_only(p: Progress, level: usize)
    ensures
        heading_start(p, level).chunks == p.chunks || (heading_start(p, level).chunks
            == p.chunks.push(trim(p.acc.buffer)) && !heading_only(trim(p.acc.buffer))),
{
}

/// A chunk below `min_words` is never closed at `max_words`: a text run that
/// does not cross the hard limit inside a paragraph closes no chunk while the
/// count so far is under the minimum.
pub proof fn lemma_min_before_max(p: Progress, t: Seq<char>, cfg: ChunkConfig)
    requires
        p.acc.words < cfg.min_words,
        !(p.acc.in_paragraph && p.acc.words + word_count(t) > cfg.hard_limit),
    ensures
        text_run(p, t, cfg).chunks == p.chunks,
{
}

proof fn lemma_scan_bounded(p: Progress, t: Seq<char>, cfg: ChunkConfig)
    requires
        cfg.is_valid(),
        p.acc.words <= cfg.hard_limit,
    ensures
        scan(p, t, cfg).acc.words <= cfg.hard_limit,
        scan(p, t, cfg).acc.in_paragraph == p.acc.in_paragraph,
    decreases t.len(),
{
    if t.len() > 0 {
        lemma_scan_bounded(p, t.drop_last(), cfg);
    }
}

/// Inside a paragraph the running word count never passes the hard limit: a
/// text run there leaves it at most `hard_limit`, however long the run.
pub proof fn lemma_paragraph_within_hard_limit(p: Progress, t: Seq<char>, cfg: ChunkConfig)
    requires
        cfg.is_valid(),
        p.acc.in_paragraph,
        p.acc.words <= cfg.hard_limit,
    ensures
        text_run(p, t, cfg).acc.words <= cfg.hard_limit,
        text_run(p, t, cfg).acc.in_paragraph,
{
    let w = word_count(t);
    let q = if p.acc.words + w > cfg.max_words && p.acc.words >= cfg.min_words {
        flush(p)
    } else {
        p
    };
    lemma_scan_bounded(q, t, cfg);
    assert(split_text(q, t, cfg).acc.words == scan(q, t, cfg).acc.words);
}

/// The chunks of `cs`, each followed by one space.
pub open spec fn joined(cs: Seq<Seq<char>>) -> Seq<char>
    decreases cs.len(),
{
    if cs.len() == 0 {
        Seq::empty()
    } else {
        joined(cs.drop_last()) + cs.last() + seq![' ']
    }
}

/// The chunks closed since `p0`, joined, followed by the chunk in progress.
pub open spec fn text_since(p0: Progress, p: Progress) -> Seq<char> {
    joined(p.chunks.subrange(p0.chunks.len() as int, p.chunks.len() as int)) + p.acc.buffer
}

proof fn lemma_flush_words(p0: Progress, p: Progress)
    requires
        p0.chunks.is_prefix_of(p.chunks),
    ensures
        p0.chunks.is_prefix_of(flush(p).chunks),
        words_of(text_since(p0, flush(p))) == words_of(text_since(p0, p)),
        ends_in_ws(text_since(p0, flush(p))),
{
    let n0 = p0.chunks.len() as int;
    let cs = p.chunks.subrange(n0, p.chunks.len() as int);
    let j = joined(cs);
    let b = p.acc.buffer;
    let t = trim(b);
    lemma_words_concat(j, b);
    lemma_words_trim(b);
    let q = flush(p);
    if t.len() > 0 {
        let cs2 = q.chunks.subrange(n0, q.chunks.len() as int);
        assert(cs2 =~= cs.push(t));
        assert(cs2.drop_last() =~= cs);
        assert(text_since(p0, q) =~= (j + t).push(' '));
        lemma_words_push_ws(j + t, ' ');
        lemma_words_concat(j, t);
    } else {
        assert(q.chunks.subrange(n0, q.chunks.len() as int) =~= cs);
        assert(text_since(p0, q) =~= j);
        assert(words_of(t) =~= Seq::<Seq<char>>::empty());
        assert(words_of(j) + words_of(b) =~= words_of(j));
    }
}

proof fn lemma_append_words(p0: Progress, p: Progress, y: Seq<char>, c: char)
    requires
        words_of(text_since(p0, p)) == words_of(y),
        ends_in_ws(text_since(p0, p)) == ends_in_ws(y),
    ensures
        words_of(text_since(p0, crate::chunker::append(p, seq![c]))) == words_of(y.push(c)),
        ends_in_ws(text_since(p0, crate::chunker::append(p, seq![c]))) == ends_in_ws(y.push(c)),
{
    let q = crate::chunker::append(p, seq![c]);
    assert(text_since(p0, q) =~= text_since(p0, p).push(c));
    lemma_words_push(text_since(p0, p), y, c);
}

proof fn lemma_scan_words(p: Progress, t: Seq<char>, cfg: ChunkConfig)
    requires
        ends_in_ws(p.acc.buffer),
    ensures
        p.chunks.is_prefix_of(scan(p, t, cfg).chunks),
        words_of(text_since(p, scan(p, t, cfg))) == words_of(p.acc.buffer + t),
        ends_in_ws(text_since(p, scan(p, t, cfg))) == ends_in_ws(p.acc.buffer + t),
    decreases t.len(),
{
    let b = p.acc.buffer;
    if t.len() == 0 {
        assert(p.chunks.subrange(p.chunks.len() as int, p.chunks.len() as int) =~= Seq::<
            Seq<char>,
        >::empty());
        assert(text_since(p, p) =~= b);
        assert(b + t =~= b);
    } else {
        let t1 = t.drop_last();
        lemma_scan_words(p, t1, cfg);
        let q = scan(p, t1, cfg);
        let i = t.len() - 1;
        let c = t[i];
        let y = b + t1;
        assert(b + t =~= y.push(c));
        if i > 0 {
            assert(y.last() == t[i - 1]);
        } else {
            assert(y =~= b);
        }
        if is_ws(c) {
            lemma_words_push_ws(y, c);
            if i > 0 && !is_ws(t[i - 1]) {
                lemma_append_words(p, q, y, ' ');
                lemma_words_push_ws(text_since(p, q), ' ');
                lemma_words_push(text_since(p, q), y, ' ');
            }
        } else if i == 0 || is_ws(t[i - 1]) {
            let r = if q.acc.words + 1 > cfg.hard_limit {
                flush(q)
            } else {
                q
            };
            if q.acc.words + 1 > cfg.hard_limit {
                lemma_flush_words(p, q);
            }
            lemma_append_words(p, r, y, c);
            let s2 = crate::chunker::append(r, seq![c]);
            assert(text_since(p, crate::chunker::add_words(s2, 1)) == text_since(p, s2));
        } else {
            lemma_append_words(p, q, y, c);
        }
    }
}

/// The hard-limit split keeps the words of a paragraph's text: read in order,
/// the chunks it closes, each followed by a space, and then the chunk left in
/// progress hold exactly the words of the buffer followed by the run, none
/// dropped, repeated or cut in two. The buffer ends in whitespace or is empty,
/// as it is where a paragraph starts.
pub proof fn lemma_split_keeps_words(p: Progress, t: Seq<char>, cfg: ChunkConfig)
    requires
        ends_in_ws(p.acc.buffer),
    ensures
        p.chunks.is_prefix_of(split_text(p, t, cfg).chunks),
        words_of(text_since(p, split_text(p, t, cfg))) == words_of(p.acc.buffer + t),
{
    lemma_scan_words(p, t, cfg);
    let q = scan(p, t, cfg);
    if t.len() > 0 && !is_ws(t.last()) {
        let r = crate::chunker::append(q, seq![' ']);
        assert(text_since(p, r) =~= text_since(p, q).push(' '));
        lemma_words_push_ws(text_since(p, q), ' ');
    }
}

/// A paragraph of one text run keeps its words: read in order, the chunks of
/// the paragraph, each followed by a space, hold exactly the words of its text,
/// whether or not the text exceeds the hard limit and is split.
pub proof fn lemma_paragraph_keeps_words(t: String, cfg: ChunkConfig)
    requires
        cfg.is_valid(),
    ensures
        words_of(
            joined(chunks_of(seq![MdEvent::ParagraphStart, MdEvent::Text(t), MdEvent::ParagraphEnd], cfg)),
        ) == words_of(t@),
{
    let evs = seq![MdEvent::ParagraphStart, MdEvent::Text(t), MdEvent::ParagraphEnd];
    assert(evs.drop_last() =~= seq![MdEvent::ParagraphStart, MdEvent::Text(t)]);
    assert(evs.drop_last().drop_last() =~= seq![MdEvent::ParagraphStart]);
    assert(evs.drop_last().drop_last().drop_last() =~= Seq::<MdEvent>::empty());
    let p0 = start();
    let s1 = evs.drop_last().drop_last();
    assert(run(s1.drop_last(), cfg) == p0);
    assert(s1.last() == MdEvent::ParagraphStart);
    let p1 = run(s1, cfg);
    assert(p1 == step(p0, MdEvent::ParagraphStart, cfg));
    assert(p1.acc.buffer =~= Seq::<char>::empty());
    assert(p1.chunks =~= p0.chunks);
    let p2 = run(evs.drop_last(), cfg);
    let w = word_count(t@);
    assert(!(p1.acc.words + w > cfg.max_words && p1.acc.words >= cfg.min_words));
    if p1.acc.words + w > cfg.hard_limit {
        lemma_split_keeps_words(p1, t@, cfg);
        assert(p1.acc.buffer + t@ =~= t@);
    } else {
        assert(p2.chunks =~= p1.chunks);
        assert(p2.chunks.subrange(0, 0) =~= Seq::<Seq<char>>::empty());
        assert(text_since(p1, p2) =~= t@);
    }
    let p3 = run(evs, cfg);
    assert(text_since(p1, p3) =~= text_since(p1, p2).push('\n'));
    lemma_words_push_ws(text_since(p1, p2), '\n');
    lemma_flush_words(p1, p3);
    let f = flush(p3);
    assert(f.chunks.subrange(0, f.chunks.len() as int) =~= f.chunks);
    assert(text_since(p1, f) =~= joined(f.chunks));
}

} // verus!
