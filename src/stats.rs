//! Word-count statistics over a list of chunks.

use vstd::prelude::*;
use crate::text::{chars_of, count_words, is_whitespace, trim_start, word_count};

verus! {

/// The chunk's first non-whitespace character is `#`.
pub open spec fn opens_with_hash(c: Seq<char>) -> bool {
    trim_start(c).len() > 0 && trim_start(c)[0] == '#'
}

/// The words of all chunks, added with saturation at the largest `usize`.
pub open spec fn total_words(cs: Seq<Seq<char>>) -> usize
    decreases cs.len(),
{
    if cs.len() == 0 {
        0
    } else {
        total_words(cs.drop_last()).saturating_add(word_count(cs.last()) as usize)
    }
}

/// How many chunks open with `#`.
pub open spec fn hash_chunks(cs: Seq<Seq<char>>) -> nat
    decreases cs.len(),
{
    if cs.len() == 0 {
        0
    } else {
        hash_chunks(cs.drop_last()) + if opens_with_hash(cs.last()) {
            1nat
        } else {
            0nat
        }
    }
}

/// The smallest word count of the chunks; 0 when there are none.
pub open spec fn fewest_words(cs: Seq<Seq<char>>) -> nat
    decreases cs.len(),
{
    if cs.len() == 0 {
        0
    } else if cs.len() == 1 || word_count(cs.last()) < fewest_words(cs.drop_last()) {
        word_count(cs.last())
    } else {
        fewest_words(cs.drop_last())
    }
}

/// The largest word count of the chunks; 0 when there are none.
pub open spec fn most_words(cs: Seq<Seq<char>>) -> nat
    decreases cs.len(),
{
    if cs.len() == 0 {
        0
    } else if word_count(cs.last()) > most_words(cs.drop_last()) {
        word_count(cs.last())
    } else {
        most_words(cs.drop_last())
    }
}

/// The integer statistics of a list of chunks.
pub struct ChunkStats {
    pub chunks: usize,
    pub total_words: usize,
    pub hash_chunks: usize,
    pub fewest_words: usize,
    pub most_words: usize,
}

/// Whether the first non-whitespace character of `s` is `#`.
fn first_is_hash(s: &Vec<char>) -> (r: bool)
    ensures
        r == opens_with_hash(s@),
{
    let n = s.len();
    let mut i: usize = 0;
    assert(s@.subrange(0, n as int) =~= s@);
    while i < n && is_whitespace(s[i])
        invariant
            n == s@.len(),
            i <= n,
            trim_start(s@) == trim_start(s@.subrange(i as int, n as int)),
        decreases n - i,
    {
        assert(s@.subrange(i as int, n as int).drop_first() =~= s@.subrange(i + 1, n as int));
        i = i + 1;
    }
    let ghost t = s@.subrange(i as int, n as int);
    assert(trim_start(t) == t);
    i < n && s[i] == '#'
}

/// Counts the chunks, their words, those that open with `#`, and the smallest
/// and largest word counts.
pub fn chunk_stats(chunks: &Vec<String>) -> (r: ChunkStats)
    ensures
        r.chunks == chunks@.len(),
        r.total_words == total_words(chunks@.map_values(|c: String| c@)),
        r.hash_chunks == hash_chunks(chunks@.map_values(|c: String| c@)),
        r.fewest_words == fewest_words(chunks@.map_values(|c: String| c@)),
        r.most_words == most_words(chunks@.map_values(|c: String| c@)),
{
    let ghost cs = chunks@.map_values(|c: String| c@);
    let n = chunks.len();
    let mut total: usize = 0;
    let mut hashes: usize = 0;
    let mut fewest: usize = 0;
    let mut most: usize = 0;
    let mut i: usize = 0;
    while i < n
        invariant
            n == chunks@.len(),
            cs == chunks@.map_values(|c: String| c@),
            i <= n,
            hashes <= i,
            total == total_words(cs.subrange(0, i as int)),
            hashes == hash_chunks(cs.subrange(0, i as int)),
            fewest == fewest_words(cs.subrange(0, i as int)),
            most == most_words(cs.subrange(0, i as int)),
        decreases n - i,
    {
        let ghost pre = cs.subrange(0, i + 1);
        assert(pre.drop_last() =~= cs.subrange(0, i as int));
        assert(pre.last() == chunks@[i as int]@);
        let c = chars_of(chunks[i].as_str());
        let w = count_words(&c);
        total = total.saturating_add(w);
        if first_is_hash(&c) {
            hashes = hashes + 1;
        }
        if i == 0 || w < fewest {
            fewest = w;
        }
        if w > most {
            most = w;
        }
        i = i + 1;
    }
    assert(cs.subrange(0, n as int) =~= cs);
    ChunkStats { chunks: n, total_words: total, hash_chunks: hashes, fewest_words: fewest, most_words: most }
}

} // verus!
