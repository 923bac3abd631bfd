//! The segmentation state machine: renders structural events into a buffer and
//! decides where one chunk ends and the next begins.

use vstd::prelude::*;
use crate::config::{ChunkConfig, ConfigError};
use crate::event::{MdEvent, markdown_events, parse_markdown};
use crate::text::{
    chars_of, string_of, count_words, heading_only, is_heading_only, is_whitespace, is_ws, trim, trimmed, word_count,
};

verus! {

/// The accumulator of the chunk in progress, as a mathematical value.
pub struct Acc {
    pub buffer: Seq<char>,
    pub words: usize,
    pub in_paragraph: bool,
    pub list_depth: usize,
}

/// The accumulator together with the chunks finished so far.
pub struct Progress {
    pub acc: Acc,
    pub chunks: Seq<Seq<char>>,
}

/// The character sequences of a list of strings.
pub open spec fn views(v: Seq<String>) -> Seq<Seq<char>> {
    v.map_values(|s: String| s@)
}

/// The state before the first event.
pub open spec fn start() -> Progress {
    Progress {
        acc: Acc { buffer: Seq::empty(), words: 0, in_paragraph: false, list_depth: 0 },
        chunks: Seq::empty(),
    }
}

/// Appends `s` to the buffer.
pub open spec fn append(p: Progress, s: Seq<char>) -> Progress {
    Progress {
        acc: Acc {
            buffer: p.acc.buffer + s,
            words: p.acc.words,
            in_paragraph: p.acc.in_paragraph,
            list_depth: p.acc.list_depth,
        },
        chunks: p.chunks,
    }
}

/// Adds `w` to the word count, saturating at the largest `usize`.
pub open spec fn add_words(p: Progress, w: usize) -> Progress {
    Progress {
        acc: Acc {
            buffer: p.acc.buffer,
            words: p.acc.words.saturating_add(w),
            in_paragraph: p.acc.in_paragraph,
            list_depth: p.acc.list_depth,
        },
        chunks: p.chunks,
    }
}

/// Ends the chunk in progress: its trimmed text is pushed when non-empty, and
/// the buffer and word count start over.
pub open spec fn flush(p: Progress) -> Progress {
    let t = trim(p.acc.buffer);
    Progress {
        acc: Acc {
            buffer: Seq::empty(),
            words: 0,
            in_paragraph: p.acc.in_paragraph,
            list_depth: p.acc.list_depth,
        },
        chunks: if t.len() > 0 {
            p.chunks.push(t)
        } else {
            p.chunks
        },
    }
}

/// `n` copies of `c`.
pub open spec fn repeat(c: char, n: nat) -> Seq<char> {
    Seq::new(n, |i: int| c)
}

/// The boundary rule at a heading: the buffer is flushed unless it holds
/// headings alone; then the heading marker is rendered.
pub open spec fn heading_start(p: Progress, level: usize) -> Progress {
    let q = if p.acc.buffer.len() > 0 && !heading_only(trim(p.acc.buffer)) {
        flush(p)
    } else {
        p
    };
    let sep = if q.acc.buffer.len() > 0 {
        seq!['\n']
    } else {
        Seq::empty()
    };
    append(q, sep + repeat('#', level as nat) + seq![' '])
}

/// The word-granular split of a text run: the state after the first `t.len()`
/// characters, where each word that would pass the hard limit first closes the chunk.
pub open spec fn scan(p: Progress, t: Seq<char>, cfg: ChunkConfig) -> Progress
    decreases t.len(),
{
    if t.len() == 0 {
        p
    } else {
        let q = scan(p, t.drop_last(), cfg);
        let i = t.len() - 1;
        let c = t[i];
        if is_ws(c) {
            if i > 0 && !is_ws(t[i - 1]) {
                append(q, seq![' '])
            } else {
                q
            }
        } else if i == 0 || is_ws(t[i - 1]) {
            let r = if q.acc.words + 1 > cfg.hard_limit {
                flush(q)
            } else {
                q
            };
            add_words(append(r, seq![c]), 1)
        } else {
            append(q, seq![c])
        }
    }
}

/// A text run split word by word, each word followed by one space.
pub open spec fn split_text(p: Progress, t: Seq<char>, cfg: ChunkConfig) -> Progress {
    let q = scan(p, t, cfg);
    if t.len() > 0 && !is_ws(t.last()) {
        append(q, seq![' '])
    } else {
        q
    }
}

/// The boundary rules at a text run: the threshold rule, then the hard-limit
/// split inside a paragraph, else the run is appended whole, without separator.
pub open spec fn text_run(p: Progress, t: Seq<char>, cfg: ChunkConfig) -> Progress {
    let w = word_count(t);
    let q = if p.acc.words + w > cfg.max_words && p.acc.words >= cfg.min_words {
        flush(p)
    } else {
        p
    };
    if q.acc.in_paragraph && q.acc.words + w > cfg.hard_limit {
        split_text(q, t, cfg)
    } else {
        add_words(append(q, t), w as usize)
    }
}

/// Sets the paragraph flag.
pub open spec fn set_paragraph(p: Progress, b: bool) -> Progress {
    Progress {
        acc: Acc {
            buffer: p.acc.buffer,
            words: p.acc.words,
            in_paragraph: b,
            list_depth: p.acc.list_depth,
        },
        chunks: p.chunks,
    }
}

/// Sets the list nesting depth.
pub open spec fn set_depth(p: Progress, d: usize) -> Progress {
    Progress {
        acc: Acc {
            buffer: p.acc.buffer,
            words: p.acc.words,
            in_paragraph: p.acc.in_paragraph,
            list_depth: d,
        },
        chunks: p.chunks,
    }
}

/// A newline when the buffer is non-empty.
pub open spec fn newline_if_any(p: Progress) -> Seq<char> {
    if p.acc.buffer.len() > 0 {
        seq!['\n']
    } else {
        Seq::empty()
    }
}

/// One event: its boundary rule, then its rendering.
pub open spec fn step(p: Progress, e: MdEvent, cfg: ChunkConfig) -> Progress {
    match e {
        MdEvent::HeadingStart(level) => heading_start(p, level),
        MdEvent::HeadingEnd => append(p, seq!['\n']),
        MdEvent::ParagraphStart => set_paragraph(append(p, newline_if_any(p)), true),
        MdEvent::ParagraphEnd => set_paragraph(append(p, seq!['\n']), false),
        MdEvent::BlockquoteStart => append(p, seq!['>', ' ']),
        MdEvent::ListStart => set_depth(p, p.acc.list_depth.saturating_add(1)),
        MdEvent::ListEnd => set_depth(p, p.acc.list_depth.saturating_sub(1)),
        MdEvent::ItemStart => append(
            p,
            seq!['\n'] + repeat(' ', 2 * (p.acc.list_depth.saturating_sub(1) as nat)) + seq![
                '-',
                ' ',
            ],
        ),
        MdEvent::FencedCodeStart(lang) => append(p, seq!['\n', '`', '`', '`'] + lang@ + seq!['\n']),
        MdEvent::IndentedCodeStart => append(p, seq!['`', '`', '`', '\n']),
        MdEvent::CodeBlockEnd => append(p, seq!['`', '`', '`', '\n']),
        MdEvent::Text(t) => text_run(p, t@, cfg),
        MdEvent::InlineCode(c) => append(p, seq!['`'] + c@ + seq!['`']),
        MdEvent::Strong => append(p, seq!['*', '*']),
        MdEvent::Emphasis => append(p, seq!['*']),
        MdEvent::SoftBreak => append(p, seq![' ']),
        MdEvent::HardBreak => append(p, seq!['\n', '\n']),
        MdEvent::Other => p,
    }
}

/// The state after all of `evs`, in order.
pub open spec fn run(evs: Seq<MdEvent>, cfg: ChunkConfig) -> Progress
    decreases evs.len(),
{
    if evs.len() == 0 {
        start()
    } else {
        step(run(evs.drop_last(), cfg), evs.last(), cfg)
    }
}

/// The chunks of an event stream: every event in order, then a final flush.
pub open spec fn chunks_of(evs: Seq<MdEvent>, cfg: ChunkConfig) -> Seq<Seq<char>> {
    flush(run(evs, cfg)).chunks
}

/// The chunks of a markdown document.
pub open spec fn chunks_of_text(text: Seq<char>, cfg: ChunkConfig) -> Seq<Seq<char>> {
    chunks_of(markdown_events(text), cfg)
}

/// `a + b > lim`, computed without overflow.
fn exceeds(a: usize, b: usize, lim: usize) -> (r: bool)
    ensures
        r == (a + b > lim),
{
    if a > lim {
        true
    } else {
        b > lim - a
    }
}

/// The accumulator of the chunk in progress.
pub struct ChunkState {
    pub buffer: Vec<char>,
    pub words: usize,
    pub in_paragraph: bool,
    pub list_depth: usize,
}

impl View for ChunkState {
    type V = Acc;

    open spec fn view(&self) -> Acc {
        Acc {
            buffer: self.buffer@,
            words: self.words,
            in_paragraph: self.in_paragraph,
            list_depth: self.list_depth,
        }
    }
}

/// The state of the accumulator together with the finished chunks.
pub open spec fn progress(st: ChunkState, out: Seq<String>) -> Progress {
    Progress { acc: st@, chunks: views(out) }
}

impl ChunkState {
    /// An empty accumulator.
    pub fn new() -> (r: ChunkState)
        ensures
            r@ == start().acc,
    {
        ChunkState { buffer: Vec::new(), words: 0, in_paragraph: false, list_depth: 0 }
    }

    /// The word count of the chunk in progress.
    pub fn word_count(&self) -> (r: usize)
        ensures
            r == self@.words,
    {
        self.words
    }

    /// Whether the buffer is empty.
    pub fn is_empty(&self) -> (r: bool)
        ensures
            r == (self@.buffer.len() == 0),
    {
        self.buffer.len() == 0
    }

    /// Appends the characters of `s` to the buffer.
    pub fn append(&mut self, s: &Vec<char>)
        ensures
            final(self)@ == append(Progress { acc: old(self)@, chunks: Seq::empty() }, s@).acc,
    {
        let mut i: usize = 0;
        let ghost b0 = self.buffer@;
        while i < s.len()
            invariant
                i <= s@.len(),
                self.buffer@ =~= b0 + s@.subrange(0, i as int),
                self.words == old(self).words,
                self.in_paragraph == old(self).in_paragraph,
                self.list_depth == old(self).list_depth,
                b0 == old(self).buffer@,
            decreases s@.len() - i,
        {
            self.buffer.push(s[i]);
            i = i + 1;
        }
        assert(s@.subrange(0, s@.len() as int) =~= s@);
    }

    /// Appends `n` copies of `c` to the buffer.
    fn append_repeat(&mut self, c: char, n: usize)
        ensures
            final(self)@ == append(
                Progress { acc: old(self)@, chunks: Seq::empty() },
                repeat(c, n as nat),
            ).acc,
    {
        let mut i: usize = 0;
        while i < n
            invariant
                i <= n,
                self.buffer@ =~= old(self).buffer@ + repeat(c, i as nat),
                self.words == old(self).words,
                self.in_paragraph == old(self).in_paragraph,
                self.list_depth == old(self).list_depth,
            decreases n - i,
        {
            self.buffer.push(c);
            i = i + 1;
        }
    }

    /// Returns the trimmed buffer and resets the buffer and the word count.
    pub fn take(&mut self) -> (r: Vec<char>)
        ensures
            r@ == trim(old(self)@.buffer),
            final(self)@ == flush(Progress { acc: old(self)@, chunks: Seq::empty() }).acc,
    {
        let t = trimmed(&self.buffer);
        self.buffer = Vec::new();
        self.words = 0;
        t
    }

    /// Ends the chunk in progress, pushing its trimmed text onto `out` when non-empty.
    pub fn flush(&mut self, out: &mut Vec<String>)
        ensures
            progress(*final(self), final(out)@) == flush(progress(*old(self), old(out)@)),
    {
        let t = self.take();
        if t.len() > 0 {
            let s = string_of(&t);
            out.push(s);
            assert(views(out@) =~= views(old(out)@).push(t@));
        }
    }

    /// The heading boundary rule, then the heading marker.
    fn heading_start(&mut self, out: &mut Vec<String>, level: usize)
        ensures
            progress(*final(self), final(out)@) == heading_start(progress(*old(self), old(out)@), level),
    {
        if self.buffer.len() > 0 {
            let t = trimmed(&self.buffer);
            if !is_heading_only(&t) {
                self.flush(out);
            }
        }
        if self.buffer.len() > 0 {
            self.buffer.push('\n');
        }
        self.append_repeat('#', level);
        self.buffer.push(' ');
        assert(self.buffer@ =~= heading_start(progress(*old(self), old(out)@), level).acc.buffer);
    }

    /// Splits the text run `t` word by word, closing the chunk before any word
    /// that would pass the hard limit.
    fn split_text(&mut self, out: &mut Vec<String>, t: &Vec<char>, cfg: &ChunkConfig)
        ensures
            progress(*final(self), final(out)@) == split_text(
                progress(*old(self), old(out)@),
                t@,
                *cfg,
            ),
    {
        let ghost p0 = progress(*self, out@);
        let mut i: usize = 0;
        assert(t@.subrange(0, 0) =~= Seq::<char>::empty());
        while i < t.len()
            invariant
                i <= t@.len(),
                p0 == progress(*old(self), old(out)@),
                progress(*self, out@) == scan(p0, t@.subrange(0, i as int), *cfg),
            decreases t@.len() - i,
        {
            let c = t[i];
            let ghost pre = t@.subrange(0, i + 1);
            assert(pre.drop_last() =~= t@.subrange(0, i as int));
            if is_whitespace(c) {
                if i > 0 && !is_whitespace(t[i - 1]) {
                    self.buffer.push(' ');
                }
            } else if i == 0 || is_whitespace(t[i - 1]) {
                if exceeds(self.words, 1, cfg.hard_limit) {
                    self.flush(out);
                }
                self.buffer.push(c);
                self.words = self.words.saturating_add(1);
            } else {
                self.buffer.push(c);
            }
            assert(self.buffer@ =~= scan(p0, pre, *cfg).acc.buffer);
            i = i + 1;
        }
        assert(t@.subrange(0, t@.len() as int) =~= t@);
        if t.len() > 0 && !is_whitespace(t[t.len() - 1]) {
            self.buffer.push(' ');
        }
        assert(self.buffer@ =~= split_text(p0, t@, *cfg).acc.buffer);
    }

    /// The boundary rules at a text run, then the run itself.
    fn text_run(&mut self, out: &mut Vec<String>, text: &String, cfg: &ChunkConfig)
        ensures
            progress(*final(self), final(out)@) == text_run(
                progress(*old(self), old(out)@),
                text@,
                *cfg,
            ),
    {
        let ghost p0 = progress(*self, out@);
        let t = chars_of(text.as_str());
        let w = count_words(&t);
        if exceeds(self.words, w, cfg.max_words) && self.words >= cfg.min_words {
            self.flush(out);
        }
        if self.in_paragraph && exceeds(self.words, w, cfg.hard_limit) {
            self.split_text(out, &t, cfg);
        } else {
            self.append(&t);
            self.words = self.words.saturating_add(w);
        }
        assert(self.buffer@ =~= text_run(p0, text@, *cfg).acc.buffer);
    }

    /// Handles one event: its boundary rule, then its rendering.
    pub fn step(&mut self, out: &mut Vec<String>, e: &MdEvent, cfg: &ChunkConfig)
        ensures
            progress(*final(self), final(out)@) == step(progress(*old(self), old(out)@), *e, *cfg),
    {
        let ghost p = progress(*self, out@);
        match e {
            MdEvent::HeadingStart(level) => self.heading_start(out, *level),
            MdEvent::HeadingEnd => self.buffer.push('\n'),
            MdEvent::ParagraphStart => {
                if self.buffer.len() > 0 {
                    self.buffer.push('\n');
                }
                self.in_paragraph = true;
                assert(self.buffer@ =~= p.acc.buffer + newline_if_any(p));
            },
            MdEvent::ParagraphEnd => {
                self.in_paragraph = false;
                self.buffer.push('\n');
            },
            MdEvent::BlockquoteStart => {
                self.buffer.push('>');
                self.buffer.push(' ');
                assert(self.buffer@ =~= p.acc.buffer + seq!['>', ' ']);
            },
            MdEvent::ListStart => self.list_depth = self.list_depth.saturating_add(1),
            MdEvent::ListEnd => self.list_depth = self.list_depth.saturating_sub(1),
            MdEvent::ItemStart => {
                self.buffer.push('\n');
                let d = self.list_depth.saturating_sub(1);
                let mut k: usize = 0;
                while k < d
                    invariant
                        k <= d,
                        d == p.acc.list_depth.saturating_sub(1),
                        self.buffer@ =~= p.acc.buffer + seq!['\n'] + repeat(' ', 2 * k as nat),
                        self.words == p.acc.words,
                        self.in_paragraph == p.acc.in_paragraph,
                        self.list_depth == p.acc.list_depth,
                        out@ == old(out)@,
                    decreases d - k,
                {
                    self.buffer.push(' ');
                    self.buffer.push(' ');
                    k = k + 1;
                }
                self.buffer.push('-');
                self.buffer.push(' ');
            },
            MdEvent::FencedCodeStart(lang) => {
                self.buffer.push('\n');
                self.append_repeat('`', 3);
                let l = chars_of(lang.as_str());
                self.append(&l);
                self.buffer.push('\n');
                assert(self.buffer@ =~= p.acc.buffer + (seq!['\n', '`', '`', '`'] + lang@ + seq!['\n']));
            },
            MdEvent::IndentedCodeStart | MdEvent::CodeBlockEnd => {
                self.append_repeat('`', 3);
                self.buffer.push('\n');
                assert(self.buffer@ =~= p.acc.buffer + seq!['`', '`', '`', '\n']);
            },
            MdEvent::Text(t) => self.text_run(out, t, cfg),
            MdEvent::InlineCode(c) => {
                self.buffer.push('`');
                let cs = chars_of(c.as_str());
                self.append(&cs);
                self.buffer.push('`');
                assert(self.buffer@ =~= p.acc.buffer + (seq!['`'] + c@ + seq!['`']));
            },
            MdEvent::Strong => {
                self.buffer.push('*');
                self.buffer.push('*');
            },
            MdEvent::Emphasis => self.buffer.push('*'),
            MdEvent::SoftBreak => self.buffer.push(' '),
            MdEvent::HardBreak => {
                self.buffer.push('\n');
                self.buffer.push('\n');
                assert(self.buffer@ =~= p.acc.buffer + seq!['\n', '\n']);
            },
            MdEvent::Other => {},
        }
        assert(self.buffer@ =~= step(p, *e, *cfg).acc.buffer);
    }
}

/// Chunks an event stream: each event in order, then a final flush.
pub fn chunk_events(events: &Vec<MdEvent>, config: &ChunkConfig) -> (r: Vec<String>)
    ensures
        views(r@) == chunks_of(events@, *config),
{
    let mut st = ChunkState::new();
    let mut out: Vec<String> = Vec::new();
    let mut i: usize = 0;
    assert(views(out@) =~= Seq::<Seq<char>>::empty());
    while i < events.len()
        invariant
            i <= events@.len(),
            progress(st, out@) == run(events@.subrange(0, i as int), *config),
        decreases events@.len() - i,
    {
        assert(events@.subrange(0, i + 1).drop_last() =~= events@.subrange(0, i as int));
        st.step(&mut out, &events[i], config);
        i = i + 1;
    }
    assert(events@.subrange(0, events@.len() as int) =~= events@);
    st.flush(&mut out);
    out
}

/// Chunks a markdown document: parses it into structural events and runs them
/// through the state machine. A chunk closes at a heading unless it holds
/// headings alone, at a text run once it has `min_words` and the run would take
/// it past `max_words`, and between words of a paragraph's text before the
/// count passes `hard_limit`. Words are runs of characters without the Unicode
/// `White_Space` property. A heading that ends the document is kept as a chunk
/// of its own.
pub fn chunk_text(text: &str, config: &ChunkConfig) -> (r: Vec<String>)
    ensures
        views(r@) == chunks_of_text(text@, *config),
{
    let events = parse_markdown(text);
    chunk_events(&events, config)
}

/// Chunks a markdown document after checking the configuration.
pub fn try_chunk_text(text: &str, config: &ChunkConfig) -> (r: Result<Vec<String>, ConfigError>)
    ensures
        r is Ok <==> config.is_valid(),
        r is Err ==> r == Err::<Vec<String>, ConfigError>(config.check()->Err_0),
        r is Ok ==> views(r->Ok_0@) == chunks_of_text(text@, *config),
{
    match config.validate() {
        Ok(()) => Ok(chunk_text(text, config)),
        Err(e) => Err(e),
    }
}

} // verus!
