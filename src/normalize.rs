//! Clean-ups applied to a document before it is chunked.

use vstd::prelude::*;
use crate::text::{chars_of, extend_chars, prefix_at, replace_chars, replaced, string_of, trim, trimmed};

verus! {

/// `pat` occurs in `s` starting at position `k`.
pub open spec fn occurs_at(s: Seq<char>, pat: Seq<char>, k: int) -> bool {
    0 <= k && k + pat.len() <= s.len() && s.subrange(k, k + pat.len()) == pat
}

/// The markers that open trailing boilerplate: a help anchor, a previous/next
/// navigation footer, and a support-channel notice. They are matched as plain
/// text, backslashes included: `\[Prev` marks a footer, a bare `[Prev` does not.
pub open spec fn end_markers() -> Seq<Seq<char>> {
    seq![
        "\\[]\\(#get-help\\)"@,
        "\\[Prev"@,
        "If you have any questions or need any help in setting things up, join our slack community and ping us in `#help` channel."@,
    ]
}

/// Some end marker occurs in `s` at position `k`.
pub open spec fn marker_at(s: Seq<char>, k: int) -> bool {
    exists|m: int| 0 <= m < end_markers().len() && occurs_at(s, #[trigger] end_markers()[m], k)
}

/// `k` is where the boilerplate of `s` begins: the first position where an end
/// marker occurs, or the end of `s` when none does.
pub open spec fn is_cut(s: Seq<char>, k: int) -> bool {
    0 <= k <= s.len() && (k == s.len() || marker_at(s, k)) && forall|j: int|
        0 <= j < k ==> !#[trigger] marker_at(s, j)
}

/// What `regex::Regex::replace_all` makes of `text` for the regex `pattern` and
/// the replacement template `template`.
pub uninterp spec fn regex_replaced(pattern: Seq<char>, text: Seq<char>, template: Seq<char>) -> Seq<char>;

/// What `regex::Regex::replace_all` makes of `text` for the regex `pattern`
/// when each match is replaced by `joined_link` of its first two capture groups.
pub uninterp spec fn regex_links_joined(pattern: Seq<char>, text: Seq<char>) -> Seq<char>;

/// The markdown link `[label](url)`, where each label line break written as
/// backslash and newline, twice in a row, becomes one space.
pub open spec fn joined_link(label: Seq<char>, url: Seq<char>) -> Seq<char> {
    seq!['['] + replaced(label, "\\\n\\\n"@, " "@) + seq![']', '('] + url + seq![')']
}

/// Builds a link whose label had its double line breaks joined by a space.
pub fn link_with_joined_label(label: &str, url: &str) -> (r: String)
    ensures
        r@ == joined_link(label@, url@),
{
    let mut v: Vec<char> = Vec::new();
    v.push('[');
    let joined = replace_chars(&chars_of(label), &chars_of("\\\n\\\n"), &chars_of(" "));
    extend_chars(&mut v, &joined);
    v.push(']');
    v.push('(');
    extend_chars(&mut v, &chars_of(url));
    v.push(')');
    assert(v@ =~= joined_link(label@, url@));
    string_of(&v)
}

/// Links whose labels break across lines, with those breaks joined.
pub open spec fn broken_labels_joined(t: Seq<char>) -> Seq<char> {
    regex_links_joined(r"\[(.*?\\\s*\n\s*\\\s*\n\s*.*?)\]\((.*?)\)"@, t)
}

/// Anchor-only link targets moved in front of the heading line that follows.
pub open spec fn anchors_inlined(t: Seq<char>) -> Seq<char> {
    regex_replaced(r"\[\]\((#.*?)\)\n(.*?)\n"@, t, "$1 $2"@)
}

/// Bold markers that wrap a link across a line break closed up.
pub open spec fn bold_gaps_closed(t: Seq<char>) -> Seq<char> {
    regex_replaced(r"\*\*(\[.*?\]\(.*?\))\n\s*\*\*"@, t, "**$1**"@)
}

/// Links joined with the lower-case text on the next line.
pub open spec fn link_lines_joined(t: Seq<char>) -> Seq<char> {
    regex_replaced(r"(\[.*?\]\(.*?\))\n\s*([a-z].*)"@, t, "$1 $2"@)
}

/// Line breaks between a link and the period or word after it removed.
pub open spec fn link_breaks_removed(t: Seq<char>) -> Seq<char> {
    regex_replaced(
        r"(\[.*?\]\(.*?\))\n (\S)"@,
        regex_replaced(r"(\[.*?\]\(.*?\))\n\."@, t, "$1."@),
        "$1 $2"@,
    )
}

/// The stray `#` of heading-anchor markup removed from heading lines.
pub open spec fn heading_anchors_removed(t: Seq<char>) -> Seq<char> {
    regex_replaced(r"(#.*?)\s+(#)\s+(.+)"@, t, "$1 $3"@)
}

/// Relies on `regex::Regex::new` and `Regex::replace_all` with a replacement
/// callback: every match of the constant pattern, which compiles, replaced by
/// what `link_with_joined_label` makes of capture groups 1 and 2, a group that
/// takes no part in the match reading as empty.
#[verifier::external_body]
fn regex_join_broken_labels(text: &str) -> (r: String)
    ensures
        r@ == regex_links_joined(r"\[(.*?\\\s*\n\s*\\\s*\n\s*.*?)\]\((.*?)\)"@, text@),
{
    let re = regex::Regex::new(r"\[(.*?\\\s*\n\s*\\\s*\n\s*.*?)\]\((.*?)\)").unwrap();
    let out = re.replace_all(text, |c: &regex::Captures| {
        let group = |i: usize| c.get(i).map_or("", |m| m.as_str());
        link_with_joined_label(group(1), group(2))
    });
    out.into_owned()
}

/// Relies on `regex::Regex::new` and `Regex::replace_all`: every match of the
/// constant pattern, which compiles, replaced by the template.
#[verifier::external_body]
fn regex_inline_anchors(text: &str) -> (r: String)
    ensures
        r@ == anchors_inlined(text@),
{
    let re = regex::Regex::new(r"\[\]\((#.*?)\)\n(.*?)\n").unwrap();
    re.replace_all(text, "$1 $2").into_owned()
}

/// Relies on `regex::Regex::new` and `Regex::replace_all`: every match of the
/// constant pattern, which compiles, replaced by the template.
#[verifier::external_body]
fn regex_close_bold_gaps(text: &str) -> (r: String)
    ensures
        r@ == bold_gaps_closed(text@),
{
    let re = regex::Regex::new(r"\*\*(\[.*?\]\(.*?\))\n\s*\*\*").unwrap();
    re.replace_all(text, "**$1**").into_owned()
}

/// Relies on `regex::Regex::new` and `Regex::replace_all`: every match of the
/// constant pattern, which compiles, replaced by the template.
#[verifier::external_body]
fn regex_join_link_lines(text: &str) -> (r: String)
    ensures
        r@ == link_lines_joined(text@),
{
    let re = regex::Regex::new(r"(\[.*?\]\(.*?\))\n\s*([a-z].*)").unwrap();
    re.replace_all(text, "$1 $2").into_owned()
}

/// Relies on `regex::Regex::new` and `Regex::replace_all`: every match of the
/// constant pattern, which compiles, replaced by the template.
#[verifier::external_body]
fn regex_link_period(text: &str) -> (r: String)
    ensures
        r@ == regex_replaced(r"(\[.*?\]\(.*?\))\n\."@, text@, "$1."@),
{
    let re = regex::Regex::new(r"(\[.*?\]\(.*?\))\n\.").unwrap();
    re.replace_all(text, "$1.").into_owned()
}

/// Relies on `regex::Regex::new` and `Regex::replace_all`: every match of the
/// constant pattern, which compiles, replaced by the template.
#[verifier::external_body]
fn regex_link_space(text: &str) -> (r: String)
    ensures
        r@ == regex_replaced(r"(\[.*?\]\(.*?\))\n (\S)"@, text@, "$1 $2"@),
{
    let re = regex::Regex::new(r"(\[.*?\]\(.*?\))\n (\S)").unwrap();
    re.replace_all(text, "$1 $2").into_owned()
}

/// Relies on `regex::Regex::new` and `Regex::replace_all`: every match of the
/// constant pattern, which compiles, replaced by the template.
#[verifier::external_body]
fn regex_heading_anchors(text: &str) -> (r: String)
    ensures
        r@ == heading_anchors_removed(text@),
{
    let re = regex::Regex::new(r"(#.*?)\s+(#)\s+(.+)").unwrap();
    re.replace_all(text, "$1 $3").into_owned()
}

/// Joins link labels broken across lines by escaped double line breaks.
pub fn clean_double_newline_markdown_links(text: String) -> (r: String)
    ensures
        r@ == broken_labels_joined(text@),
{
    regex_join_broken_labels(text.as_str())
}

/// Moves an anchor-only link target in front of the heading line that follows it.
pub fn clean_anchortag_headings(text: String) -> (r: String)
    ensures
        r@ == anchors_inlined(text@),
{
    regex_inline_anchors(text.as_str())
}

/// Closes bold markers that wrap a link across a line break.
pub fn clean_double_asterisk_whitespace_gaps(text: String) -> (r: String)
    ensures
        r@ == bold_gaps_closed(text@),
{
    regex_close_bold_gaps(text.as_str())
}

/// Joins a link with the lower-case text that follows it on the next line.
pub fn clean_newline_and_spaces_after_links(text: String) -> (r: String)
    ensures
        r@ == link_lines_joined(text@),
{
    regex_join_link_lines(text.as_str())
}

/// Removes a line break between a link and the period or word after it.
pub fn clean_extra_newlines_after_links(text: String) -> (r: String)
    ensures
        r@ == link_breaks_removed(text@),
{
    let t = regex_link_period(text.as_str());
    regex_link_space(t.as_str())
}

/// Drops the `#` that heading-anchor markup leaves inside a heading line.
pub fn remove_anchor_tag_from_headings(text: String) -> (r: String)
    ensures
        r@ == heading_anchors_removed(text@),
{
    regex_heading_anchors(text.as_str())
}

/// What `regex::Regex::replace_all` makes of `text` for the link-list pattern
/// of `replace_link_lists` when each match is replaced by what `reflow_links`
/// makes of its first two capture groups.
pub uninterp spec fn regex_link_lists(text: Seq<char>) -> Seq<char>;

/// Relies on `regex::Regex::new` and `Regex::replace_all` with a replacement
/// callback: every run of adjacent links between blank lines (the constant
/// pattern, which compiles) replaced by what `reflow_links` makes of capture
/// groups 1 and 2, a group that takes no part in the match reading as empty.
#[verifier::external_body]
fn replace_link_lists(text: &str) -> (r: String)
    ensures
        r@ == regex_link_lists(text@),
{
    let re = regex::Regex::new(r"(\n\n)(\[(?:[^\]]+\\\s*)+[^\]]+\]\([^\)]+\)(?:\s*\[(?:[^\]]+\\\s*)+[^\]]+\]\([^\)]+\))*)\s*(\n\n|\z)").unwrap();
    let out = re.replace_all(text, |c: &regex::Captures| {
        let group = |i: usize| c.get(i).map_or("", |m| m.as_str());
        reflow_links(group(1), group(2))
    });
    out.into_owned()
}

/// The label and target of each markdown link `[label](target)` in `text`, in
/// order, as `regex::Regex::captures_iter` finds them.
pub uninterp spec fn link_captures(text: Seq<char>) -> Seq<(Seq<char>, Seq<char>)>;

/// Relies on `regex::Regex::new` and `Regex::captures_iter`: capture groups 1
/// and 2 of each successive match of the constant link pattern, which compiles.
#[verifier::external_body]
fn capture_links(text: &str) -> (r: Vec<(String, String)>)
    ensures
        r@.map_values(|p: (String, String)| (p.0@, p.1@)) == link_captures(text@),
{
    let re = regex::Regex::new(r"\[([^\]]+)\]\(([^\)]+)\)").unwrap();
    re.captures_iter(text).map(|c| (c[1].to_string(), c[2].to_string())).collect()
}

/// A link label with its escaped line breaks rewritten: backslash-newline
/// twice becomes `": "`, once becomes a space, backslash-space twice becomes
/// `": "`; then trimmed.
pub open spec fn cleaned_label(t: Seq<char>) -> Seq<char> {
    trim(replaced(replaced(replaced(t, "\\\n\\\n"@, ": "@), "\\\n"@, " "@), "\\ \\ "@, ": "@))
}

/// A bullet line `- [label](target)` with the label cleaned.
pub open spec fn bullet(link: (Seq<char>, Seq<char>)) -> Seq<char> {
    seq!['-', ' ', '['] + cleaned_label(link.0) + seq![']', '('] + link.1 + seq![')']
}

/// The bullet lines of `links`, separated by newlines.
pub open spec fn bullets(links: Seq<(Seq<char>, Seq<char>)>) -> Seq<char>
    decreases links.len(),
{
    if links.len() == 0 {
        Seq::empty()
    } else if links.len() == 1 {
        bullet(links[0])
    } else {
        bullets(links.drop_last()) + seq!['\n'] + bullet(links.last())
    }
}

/// Rewrites a run of links as a bulleted list after `newlines`.
pub fn reflow_links(newlines: &str, links: &str) -> (r: String)
    ensures
        r@ == newlines@ + bullets(link_captures(links@)),
{
    let pairs = capture_links(links);
    let ghost ps = pairs@.map_values(|p: (String, String)| (p.0@, p.1@));
    let mut out = chars_of(newlines);
    let n = pairs.len();
    let mut i: usize = 0;
    assert(ps.subrange(0, 0) =~= Seq::<(Seq<char>, Seq<char>)>::empty());
    while i < n
        invariant
            n == pairs@.len(),
            ps == pairs@.map_values(|p: (String, String)| (p.0@, p.1@)),
            i <= n,
            out@ == newlines@ + bullets(ps.subrange(0, i as int)),
        decreases n - i,
    {
        let ghost before = out@;
        let ghost pre = ps.subrange(0, i + 1);
        assert(pre.drop_last() =~= ps.subrange(0, i as int));
        assert(pre.last() == ps[i as int]);
        if i > 0 {
            out.push('\n');
        }
        let (label, target) = (&pairs[i].0, &pairs[i].1);
        out.push('-');
        out.push(' ');
        out.push('[');
        let l1 = replace_chars(&chars_of(label.as_str()), &chars_of("\\\n\\\n"), &chars_of(": "));
        let l2 = replace_chars(&l1, &chars_of("\\\n"), &chars_of(" "));
        let l3 = replace_chars(&l2, &chars_of("\\ \\ "), &chars_of(": "));
        let l4 = trimmed(&l3);
        extend_chars(&mut out, &l4);
        out.push(']');
        out.push('(');
        extend_chars(&mut out, &chars_of(target.as_str()));
        out.push(')');
        proof {
            if i == 0 {
                assert(pre.len() == 1);
                assert(before =~= newlines@);
                assert(out@ =~= newlines@ + bullet(ps[0]));
            } else {
                assert(out@ =~= newlines@ + (bullets(ps.subrange(0, i as int)) + seq!['\n'] + bullet(
                    ps[i as int],
                )));
            }
        }
        i = i + 1;
    }
    assert(ps.subrange(0, n as int) =~= ps);
    string_of(&out)
}

/// Reflows runs of adjacent links between blank lines into a bulleted list.
pub fn clean_multi_column_links(text: String) -> (r: String)
    ensures
        r@ == regex_link_lists(text@),
{
    replace_link_lists(text.as_str())
}

/// Every rewrite in order, before the trailing boilerplate is cut.
pub open spec fn rewritten(t: Seq<char>) -> Seq<char> {
    heading_anchors_removed(
        link_breaks_removed(
            regex_link_lists(
                link_lines_joined(bold_gaps_closed(anchors_inlined(broken_labels_joined(t)))),
            ),
        ),
    )
}

/// Runs a document through every clean-up, in order: broken labels joined,
/// anchors inlined, bold gaps closed, link lines joined, link lists reflowed,
/// link line breaks removed, heading anchors removed, trailing boilerplate dropped.
pub fn clean_content(text: String) -> (r: String)
    ensures
        exists|k: int| is_cut(rewritten(text@), k) && r@ == trim(rewritten(text@).subrange(0, k)),
{
    let ghost t0 = text@;
    let mut cleaned = text;
    cleaned = clean_double_newline_markdown_links(cleaned);
    cleaned = clean_anchortag_headings(cleaned);
    cleaned = clean_double_asterisk_whitespace_gaps(cleaned);
    cleaned = clean_newline_and_spaces_after_links(cleaned);
    cleaned = clean_multi_column_links(cleaned);
    cleaned = clean_extra_newlines_after_links(cleaned);
    cleaned = remove_anchor_tag_from_headings(cleaned);
    assert(cleaned@ == rewritten(t0));
    remove_end_matter(cleaned)
}

/// Drops everything from the first end marker on, then trims the rest.
pub fn remove_end_matter(text: String) -> (r: String)
    ensures
        exists|k: int| is_cut(text@, k) && r@ == trim(text@.subrange(0, k)),
{
    let s = chars_of(text.as_str());
    let markers = vec![
        chars_of("\\[]\\(#get-help\\)"),
        chars_of("\\[Prev"),
        chars_of(
            "If you have any questions or need any help in setting things up, join our slack community and ping us in `#help` channel.",
        ),
    ];
    assert(markers@.map_values(|v: Vec<char>| v@) =~= end_markers());
    assert(markers@.len() == 3);
    let mut k: usize = 0;
    let mut found = false;
    while k < s.len() && !found
        invariant
            k <= s@.len(),
            s@ == text@,
            markers@.len() == 3,
            markers@.map_values(|v: Vec<char>| v@) == end_markers(),
            found ==> k < s@.len() && marker_at(s@, k as int),
            forall|j: int| 0 <= j < k ==> !#[trigger] marker_at(s@, j),
        decreases s@.len() - k + if found { 0int } else { 1int },
    {
        let mut m: usize = 0;
        while m < markers.len() && !found
            invariant
                k < s@.len(),
                m <= markers@.len(),
                markers@.len() == 3,
                markers@.map_values(|v: Vec<char>| v@) == end_markers(),
                found ==> marker_at(s@, k as int),
                !found ==> forall|i: int| 0 <= i < m ==> !occurs_at(s@, #[trigger] end_markers()[i], k as int),
            decreases markers@.len() - m,
        {
            if prefix_at(&s, &markers[m], k) {
                assert(end_markers()[m as int] == markers@[m as int]@);
                found = true;
            }
            m = m + 1;
        }
        if !found {
            assert forall|mm: int| 0 <= mm < end_markers().len() implies !occurs_at(s@, #[trigger] end_markers()[mm], k as int) by {}
            k = k + 1;
        }
    }
    let mut head: Vec<char> = Vec::new();
    let mut i: usize = 0;
    while i < k
        invariant
            i <= k <= s@.len(),
            head@ =~= s@.subrange(0, i as int),
        decreases k - i,
    {
        head.push(s[i]);
        i = i + 1;
    }
    let t = trimmed(&head);
    assert(is_cut(text@, k as int));
    string_of(&t)
}

} // verus!
