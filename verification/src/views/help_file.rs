//! Help content written in markdown: topics, styled text and cross-references.
//!
//! A topic starts at a heading `# Title {#topic-id}`; the lines after it, up
//! to the next heading, are its content. Inside a line, `**bold**`, `*italic*`,
//! `` `code` `` and `[text](#target)` links are recognised.
use vstd::prelude::*;
use crate::text::{chars_view, split_lines, compare_chars, lemma_seq_lt_trans, lemma_seq_lt_trichotomy, lines_from, seq_lt, trim, trim_chars, Order, extend_chars, find_chars, find_from, lemma_find_from, matches_at, str_chars, string_from_chars, sub_chars};

verus! {

broadcast use vstd::string::group_string_axioms;

/// A run of text of one style.
#[derive(Debug, Clone, PartialEq)]
pub enum TextSegment {
    Normal(String),
    Bold(String),
    Italic(String),
    Code(String),
    Link { text: String, target: String },
}

/// The content of a styled run.
pub enum SegView {
    Normal(Seq<char>),
    Bold(Seq<char>),
    Italic(Seq<char>),
    Code(Seq<char>),
    Link(Seq<char>, Seq<char>),
}

impl View for TextSegment {
    type V = SegView;

    open spec fn view(&self) -> SegView {
        match self {
            TextSegment::Normal(s) => SegView::Normal(s@),
            TextSegment::Bold(s) => SegView::Bold(s@),
            TextSegment::Italic(s) => SegView::Italic(s@),
            TextSegment::Code(s) => SegView::Code(s@),
            TextSegment::Link { text, target } => SegView::Link(text@, target@),
        }
    }
}

/// The text a run shows.
pub open spec fn seg_text(v: SegView) -> Seq<char> {
    match v {
        SegView::Normal(s) => s,
        SegView::Bold(s) => s,
        SegView::Italic(s) => s,
        SegView::Code(s) => s,
        SegView::Link(t, _) => t,
    }
}

/// Number of bytes of the UTF-8 encoding of `s`.
pub open spec fn byte_len(s: Seq<char>) -> nat {
    vstd::utf8::encode_utf8(s).len()
}

impl TextSegment {
    /// The text the run shows.
    pub fn text(&self) -> (t: &str)
        ensures
            t@ == seg_text(self@),
    {
        match self {
            TextSegment::Normal(s) => s.as_str(),
            TextSegment::Bold(s) => s.as_str(),
            TextSegment::Italic(s) => s.as_str(),
            TextSegment::Code(s) => s.as_str(),
            TextSegment::Link { text, .. } => text.as_str(),
        }
    }

    /// Length of the shown text, in bytes.
    pub fn len(&self) -> (n: usize)
        ensures
            n == byte_len(seg_text(self@)) as usize,
    {
        self.text().len()
    }

    /// Whether the run shows no text.
    pub fn is_empty(&self) -> (b: bool)
        ensures
            b == (seg_text(self@).len() == 0),
    {
        self.text().is_empty()
    }
}

/// A link inside displayed help text.
#[derive(Debug, Clone)]
pub struct CrossRef {
    /// Line number, counted from 1.
    pub line: i16,
    /// Column of the link text, in bytes of the line.
    pub offset: i16,
    /// Length of the link text, in bytes.
    pub length: u8,
    /// The topic the link leads to.
    pub target: String,
}

/// The content of a cross-reference.
pub struct RefView {
    pub line: i16,
    pub offset: i16,
    pub length: u8,
    pub target: Seq<char>,
}

impl View for CrossRef {
    type V = RefView;

    open spec fn view(&self) -> RefView {
        RefView { line: self.line, offset: self.offset, length: self.length, target: self.target@ }
    }
}

impl CrossRef {
    pub fn new(line: i16, offset: i16, length: u8, target: String) -> (r: Self)
        ensures
            r.line == line,
            r.offset == offset,
            r.length == length,
            r.target@ == target@,
    {
        CrossRef { line, offset, length, target }
    }
}

/// Whether `c` may open a styled run.
pub open spec fn is_marker_char(c: char) -> bool {
    c == '*' || c == '`' || c == '['
}

pub open spec fn pat_star2() -> Seq<char> {
    seq!['*', '*']
}

pub open spec fn pat_tick() -> Seq<char> {
    seq!['`']
}

pub open spec fn pat_link_mid() -> Seq<char> {
    seq![']', '(', '#']
}

pub open spec fn pat_close() -> Seq<char> {
    seq![')']
}

/// The first star at or after `k` that is not followed by another star.
pub open spec fn find_single_star(s: Seq<char>, k: int) -> Option<int>
    decreases s.len() - k,
{
    if k < 0 || k >= s.len() {
        None
    } else if s[k] == '*' && !(k + 1 < s.len() && s[k + 1] == '*') {
        Some(k)
    } else {
        find_single_star(s, k + 1)
    }
}

proof fn lemma_find_single_star(s: Seq<char>, k: int)
    requires
        0 <= k,
    ensures
        find_single_star(s, k) matches Some(e) ==> k <= e < s.len(),
    decreases s.len() - k,
{
    if k < s.len() && !(s[k] == '*' && !(k + 1 < s.len() && s[k + 1] == '*')) {
        lemma_find_single_star(s, k + 1);
    }
}

/// The styled run that starts at `i`, and the index just after it, when the
/// marker at `i` is closed further on.
pub open spec fn marker_at(s: Seq<char>, i: int) -> Option<(SegView, int)> {
    if matches_at(s, i, pat_star2()) {
        match find_from(s, pat_star2(), i + 2) {
            Some(e) => Some((SegView::Bold(s.subrange(i + 2, e)), e + 2)),
            None => None,
        }
    } else if s[i] == '`' {
        match find_from(s, pat_tick(), i + 1) {
            Some(e) => Some((SegView::Code(s.subrange(i + 1, e)), e + 1)),
            None => None,
        }
    } else if s[i] == '[' {
        match find_from(s, pat_link_mid(), i + 1) {
            Some(te) => match find_from(s, pat_close(), te + 3) {
                Some(tg) => Some((SegView::Link(s.subrange(i + 1, te), s.subrange(te + 3, tg)), tg + 1)),
                None => None,
            },
            None => None,
        }
    } else if s[i] == '*' {
        match find_single_star(s, i + 1) {
            Some(e) => Some((SegView::Italic(s.subrange(i + 1, e)), e + 1)),
            None => None,
        }
    } else {
        None
    }
}

/// A run found at `i` ends after `i`, inside the line.
pub proof fn lemma_marker_at(s: Seq<char>, i: int)
    requires
        0 <= i < s.len(),
    ensures
        marker_at(s, i) matches Some(m) ==> i < m.1 <= s.len(),
{
    lemma_find_from(s, pat_star2(), i + 2);
    lemma_find_from(s, pat_tick(), i + 1);
    lemma_find_from(s, pat_link_mid(), i + 1);
    if let Some(te) = find_from(s, pat_link_mid(), i + 1) {
        lemma_find_from(s, pat_close(), te + 3);
    }
    lemma_find_single_star(s, i + 1);
}

/// Plain text gathered so far, as a run when there is any.
pub open spec fn flush(cur: Seq<char>) -> Seq<SegView> {
    if cur.len() == 0 { seq![] } else { seq![SegView::Normal(cur)] }
}

/// The runs of `s` from index `i` on, with `cur` the plain text gathered just
/// before `i`. A marker character always ends the plain text before it; when
/// its run is not closed the marker character starts new plain text.
pub open spec fn parse_at(s: Seq<char>, i: int, cur: Seq<char>) -> Seq<SegView>
    decreases s.len() - i,
{
    if i < 0 || i >= s.len() {
        flush(cur)
    } else if is_marker_char(s[i]) {
        proof {
            lemma_marker_at(s, i);
        }
        match marker_at(s, i) {
            Some(m) => flush(cur) + seq![m.0] + parse_at(s, m.1, seq![]),
            None => flush(cur) + parse_at(s, i + 1, seq![s[i]]),
        }
    } else {
        parse_at(s, i + 1, cur.push(s[i]))
    }
}

/// The runs of a whole line; a line without any is one empty plain run.
pub open spec fn line_segments(s: Seq<char>) -> Seq<SegView> {
    let r = parse_at(s, 0, seq![]);
    if r.len() == 0 { seq![SegView::Normal(seq![])] } else { r }
}

/// The run at `i` and the index after it, when the marker at `i` is closed.
fn marker_exec(s: &Vec<char>, i: usize) -> (r: Option<(TextSegment, usize)>)
    requires
        i < s@.len(),
    ensures
        match marker_at(s@, i as int) {
            Some(m) => r matches Some(p) && p.0@ == m.0 && p.1 == m.1,
            None => r is None,
        },
{
    proof {
        lemma_marker_at(s@, i as int);
    }
    let len = s.len();
    let star2: Vec<char> = vec!['*', '*'];
    let tick: Vec<char> = vec!['`'];
    let mid: Vec<char> = vec![']', '(', '#'];
    let close: Vec<char> = vec![')'];
    assert(star2@ == pat_star2());
    assert(tick@ == pat_tick());
    assert(mid@ == pat_link_mid());
    assert(close@ == pat_close());
    if crate::text::chars_match_at(s, i, &star2) {
        match find_chars(s, i + 2, &star2) {
            Some(e) => {
                proof { lemma_find_from(s@, pat_star2(), i + 2); }
                let text = string_from_chars(&sub_chars(s, i + 2, e));
                Some((TextSegment::Bold(text), e + 2))
            },
            None => None,
        }
    } else if s[i] == '`' {
        match find_chars(s, i + 1, &tick) {
            Some(e) => {
                proof { lemma_find_from(s@, pat_tick(), i + 1); }
                let text = string_from_chars(&sub_chars(s, i + 1, e));
                Some((TextSegment::Code(text), e + 1))
            },
            None => None,
        }
    } else if s[i] == '[' {
        match find_chars(s, i + 1, &mid) {
            Some(te) => {
                proof { lemma_find_from(s@, pat_link_mid(), i + 1); }
                match find_chars(s, te + 3, &close) {
                    Some(tg) => {
                        proof { lemma_find_from(s@, pat_close(), te + 3); }
                        let text = string_from_chars(&sub_chars(s, i + 1, te));
                        let target = string_from_chars(&sub_chars(s, te + 3, tg));
                        Some((TextSegment::Link { text, target }, tg + 1))
                    },
                    None => None,
                }
            },
            None => None,
        }
    } else if s[i] == '*' {
        let n = s.len();
        let mut k: usize = i + 1;
        while k < n && !(s[k] == '*' && !(k + 1 < n && s[k + 1] == '*'))
            invariant
                n == s@.len(),
                i < k <= n,
                find_single_star(s@, i + 1) == find_single_star(s@, k as int),
            decreases n - k,
        {
            k = k + 1;
        }
        if k < n {
            let text = string_from_chars(&sub_chars(s, i + 1, k));
            Some((TextSegment::Italic(text), k + 1))
        } else {
            None
        }
    } else {
        None
    }
}

/// The runs of `segs`.
pub open spec fn segs_view(segs: Seq<TextSegment>) -> Seq<SegView> {
    segs.map_values(|t: TextSegment| t@)
}

/// Move the gathered plain text, if any, into `segs` as one run.
fn flush_exec(segs: &mut Vec<TextSegment>, cur: &mut Vec<char>)
    ensures
        segs_view(final(segs)@) == segs_view(old(segs)@) + flush(old(cur)@),
        final(cur)@ == Seq::<char>::empty(),
{
    if cur.len() > 0 {
        let text = string_from_chars(cur);
        segs.push(TextSegment::Normal(text));
        *cur = Vec::new();
    }
    assert(segs_view(segs@) =~= segs_view(old(segs)@) + flush(old(cur)@));
}

pub open spec fn pat_open() -> Seq<char> {
    seq!['[']
}

/// A piece of a line after its links are resolved: text, and the target when
/// the text is a link.
pub struct Piece {
    pub text: Seq<char>,
    pub target: Option<Seq<char>>,
}

/// The pieces of `s` from index `i` on: plain text up to each `[`, then the
/// link text of a complete `[text](#target)`, or the bracket itself when the
/// link is not complete.
pub open spec fn pieces_at(s: Seq<char>, i: int) -> Seq<Piece>
    decreases s.len() + 1 - i,
{
    if i < 0 || i > s.len() {
        seq![]
    } else {
        proof {
            lemma_find_from(s, pat_open(), i);
        }
        match find_from(s, pat_open(), i) {
            None => seq![Piece { text: s.subrange(i, s.len() as int), target: None }],
            Some(lb) => {
                let before = Piece { text: s.subrange(i, lb), target: None };
                let bracket = Piece { text: seq!['['], target: None };
                match find_from(s, pat_link_mid(), lb + 1) {
                    Some(te) => {
                        proof {
                            lemma_find_from(s, pat_link_mid(), lb + 1);
                            lemma_find_from(s, pat_close(), te + 3);
                        }
                        match find_from(s, pat_close(), te + 3) {
                            Some(tg) => seq![before, Piece { text: s.subrange(lb + 1, te), target: Some(s.subrange(te + 3, tg)) }]
                                + pieces_at(s, tg + 1),
                            None => seq![before, bracket] + pieces_at(s, lb + 1),
                        }
                    },
                    None => seq![before, bracket] + pieces_at(s, lb + 1),
                }
            },
        }
    }
}

/// The text of `ps`, one piece after the other.
pub open spec fn pieces_text(ps: Seq<Piece>) -> Seq<char>
    decreases ps.len(),
{
    if ps.len() == 0 { seq![] } else { ps[0].text + pieces_text(ps.subrange(1, ps.len() as int)) }
}

/// The cross-references of the links among `ps`, on line `line`, after `prefix`.
pub open spec fn pieces_refs(ps: Seq<Piece>, line: i16, prefix: Seq<char>) -> Seq<RefView>
    decreases ps.len(),
{
    if ps.len() == 0 {
        seq![]
    } else {
        (match ps[0].target {
            Some(t) => seq![RefView {
                line: line,
                offset: (byte_len(prefix) as usize) as i16,
                length: (byte_len(ps[0].text) as usize) as u8,
                target: t,
            }],
            None => seq![],
        }) + pieces_refs(ps.subrange(1, ps.len() as int), line, prefix + ps[0].text)
    }
}

/// The views of `refs`.
pub open spec fn refs_view(refs: Seq<CrossRef>) -> Seq<RefView> {
    refs.map_values(|r: CrossRef| r@)
}

proof fn lemma_pieces_cons(a: Piece, rest: Seq<Piece>, line: i16, prefix: Seq<char>)
    ensures
        pieces_text(seq![a] + rest) == a.text + pieces_text(rest),
        pieces_refs(seq![a] + rest, line, prefix) == (match a.target {
            Some(t) => seq![RefView {
                line: line,
                offset: (byte_len(prefix) as usize) as i16,
                length: (byte_len(a.text) as usize) as u8,
                target: t,
            }],
            None => seq![],
        }) + pieces_refs(rest, line, prefix + a.text),
{
    let all = seq![a] + rest;
    assert(all[0] == a);
    assert(all.subrange(1, all.len() as int) =~= rest);
}

proof fn lemma_pieces_one(a: Piece, line: i16, prefix: Seq<char>)
    ensures
        pieces_text(seq![a]) == a.text,
        pieces_refs(seq![a], line, prefix) == (match a.target {
            Some(t) => seq![RefView {
                line: line,
                offset: (byte_len(prefix) as usize) as i16,
                length: (byte_len(a.text) as usize) as u8,
                target: t,
            }],
            None => seq![],
        }),
{
    lemma_pieces_cons(a, Seq::<Piece>::empty(), line, prefix);
    assert(seq![a] + Seq::<Piece>::empty() =~= seq![a]);
    assert(pieces_text(Seq::<Piece>::empty()) == Seq::<char>::empty());
    assert(pieces_refs(Seq::<Piece>::empty(), line, prefix + a.text) == Seq::<RefView>::empty());
    assert(a.text + Seq::<char>::empty() =~= a.text);
}

proof fn lemma_pieces_two(a: Piece, b: Piece, rest: Seq<Piece>, line: i16, prefix: Seq<char>)
    ensures
        pieces_text(seq![a, b] + rest) == a.text + b.text + pieces_text(rest),
        pieces_refs(seq![a, b] + rest, line, prefix) == pieces_refs(seq![a], line, prefix)
            + pieces_refs(seq![b], line, prefix + a.text) + pieces_refs(rest, line, prefix + a.text + b.text),
{
    assert(seq![a, b] + rest =~= seq![a] + (seq![b] + rest));
    lemma_pieces_cons(a, seq![b] + rest, line, prefix);
    lemma_pieces_cons(b, rest, line, prefix + a.text);
    lemma_pieces_one(a, line, prefix);
    lemma_pieces_one(b, line, prefix + a.text);
    assert(a.text + (b.text + pieces_text(rest)) =~= a.text + b.text + pieces_text(rest));
    assert(prefix + a.text + b.text =~= (prefix + a.text) + b.text);
}

/// A help topic: its id, title, lines of content and the topics it links to.
#[derive(Debug, Clone)]
pub struct HelpTopic {
    pub id: String,
    pub title: String,
    pub content: Vec<String>,
    pub links: Vec<String>,
}

impl HelpTopic {
    /// Split `line` into styled runs: `**bold**`, `*italic*`, `` `code` ``,
    /// `[text](#target)` links and plain text between them.
    pub fn parse_line_segments(line: &str) -> (segs: Vec<TextSegment>)
        ensures
            segs_view(segs@) == line_segments(line@),
    {
        let s = str_chars(line);
        let n = s.len();
        let mut segs: Vec<TextSegment> = Vec::new();
        let mut cur: Vec<char> = Vec::new();
        let mut i: usize = 0;
        while i < n
            invariant
                n == s@.len(),
                i <= n,
                segs_view(segs@) + parse_at(s@, i as int, cur@) == parse_at(s@, 0, seq![]),
            decreases n - i,
        {
            let c = s[i];
            let ghost before = segs_view(segs@);
            let ghost cur0 = cur@;
            if c == '*' || c == '`' || c == '[' {
                proof { lemma_marker_at(s@, i as int); }
                flush_exec(&mut segs, &mut cur);
                match marker_exec(&s, i) {
                    Some(m) => {
                        let (seg, j) = m;
                        segs.push(seg);
                        let ghost found = marker_at(s@, i as int)->0;
                        assert(segs_view(segs@) =~= before + flush(cur0) + seq![found.0]);
                        assert(before + parse_at(s@, i as int, cur0) =~= segs_view(segs@) + parse_at(s@, j as int, cur@));
                        i = j;
                    },
                    None => {
                        cur.push(c);
                        assert(cur@ =~= seq![c]);
                        assert(before + parse_at(s@, i as int, cur0) =~= segs_view(segs@) + parse_at(s@, i + 1, cur@));
                        i = i + 1;
                    },
                }
            } else {
                cur.push(c);
                i = i + 1;
            }
        }
        let ghost before = segs_view(segs@);
        flush_exec(&mut segs, &mut cur);
        if segs.len() == 0 {
            segs.push(TextSegment::Normal(String::new()));
            assert(segs_view(segs@) =~= seq![SegView::Normal(seq![])]);
        }
        segs
    }
}

impl HelpTopic {
    /// Drop the markdown of the links in `line`, keeping their text, and report
    /// where each link's text ends up: line `line_num`, byte offset and byte length.
    pub fn process_line_links(line: &str, line_num: i16) -> (r: (String, Vec<CrossRef>))
        ensures
            r.0@ == pieces_text(pieces_at(line@, 0)),
            refs_view(r.1@) == pieces_refs(pieces_at(line@, 0), line_num, seq![]),
    {
        let s = str_chars(line);
        let n = s.len();
        let open: Vec<char> = vec!['['];
        let mid: Vec<char> = vec![']', '(', '#'];
        let close: Vec<char> = vec![')'];
        assert(open@ == pat_open());
        assert(mid@ == pat_link_mid());
        assert(close@ == pat_close());
        let mut result: Vec<char> = Vec::new();
        let mut refs: Vec<CrossRef> = Vec::new();
        let mut i: usize = 0;
        let mut done = false;
        let ghost total = pieces_at(s@, 0);
        let ghost mut rest = pieces_at(s@, 0);
        while !done
            invariant
                n == s@.len(),
                i <= n,
                open@ == pat_open(),
                mid@ == pat_link_mid(),
                close@ == pat_close(),
                total == pieces_at(s@, 0),
                !done ==> rest == pieces_at(s@, i as int),
                done ==> rest == Seq::<Piece>::empty(),
                result@ + pieces_text(rest) == pieces_text(total),
                refs_view(refs@) + pieces_refs(rest, line_num, result@) == pieces_refs(total, line_num, seq![]),
            decreases (n + 1 - i) * 2 + (if done { 0int } else { 1int }),
        {
            proof { lemma_find_from(s@, pat_open(), i as int); }
            let ghost r0 = result@;
            let ghost f0 = refs_view(refs@);
            match find_chars(&s, i, &open) {
                None => {
                    let tail = sub_chars(&s, i, n);
                    proof { lemma_pieces_one(Piece { text: tail@, target: None }, line_num, r0); }
                    extend_chars(&mut result, &tail);
                    proof {
                        assert(refs_view(refs@) + pieces_refs(Seq::<Piece>::empty(), line_num, result@) =~= f0
                            + pieces_refs(rest, line_num, r0));
                        assert(result@ + pieces_text(Seq::<Piece>::empty()) =~= r0 + pieces_text(rest));
                        rest = Seq::<Piece>::empty();
                    }
                    done = true;
                },
                Some(lb) => {
                    let before = sub_chars(&s, i, lb);
                    let ghost bp = Piece { text: before@, target: None };
                    let mut found = false;
                    match find_chars(&s, lb + 1, &mid) {
                        Some(te) => {
                            proof {
                                lemma_find_from(s@, pat_link_mid(), lb + 1);
                                lemma_find_from(s@, pat_close(), te + 3);
                            }
                            match find_chars(&s, te + 3, &close) {
                                Some(tg) => {
                                    let text = sub_chars(&s, lb + 1, te);
                                    let target = sub_chars(&s, te + 3, tg);
                                    let ghost lp = Piece { text: text@, target: Some(target@) };
                                    proof {
                                        lemma_pieces_two(bp, lp, pieces_at(s@, tg + 1), line_num, r0);
                                        lemma_pieces_one(bp, line_num, r0);
                                        lemma_pieces_one(lp, line_num, r0 + bp.text);
                                    }
                                    extend_chars(&mut result, &before);
                                    let offset = string_from_chars(&result).as_str().len() as i16;
                                    let length = string_from_chars(&text).as_str().len() as u8;
                                    refs.push(CrossRef::new(line_num, offset, length, string_from_chars(&target)));
                                    extend_chars(&mut result, &text);
                                    proof {
                                        assert(result@ =~= r0 + bp.text + lp.text);
                                        assert(refs_view(refs@) =~= f0 + pieces_refs(seq![bp], line_num, r0)
                                            + pieces_refs(seq![lp], line_num, r0 + bp.text));
                                        rest = pieces_at(s@, tg + 1);
                                    }
                                    i = tg + 1;
                                    found = true;
                                },
                                None => {},
                            }
                        },
                        None => {},
                    }
                    if !found {
                        let ghost bk = Piece { text: seq!['['], target: None };
                        proof {
                            lemma_pieces_two(bp, bk, pieces_at(s@, lb + 1), line_num, r0);
                            lemma_pieces_one(bp, line_num, r0);
                            lemma_pieces_one(bk, line_num, r0 + bp.text);
                        }
                        extend_chars(&mut result, &before);
                        result.push('[');
                        proof {
                            assert(result@ =~= r0 + bp.text + bk.text);
                            assert(refs_view(refs@) =~= f0 + pieces_refs(seq![bp], line_num, r0)
                                + pieces_refs(seq![bk], line_num, r0 + bp.text));
                            rest = pieces_at(s@, lb + 1);
                        }
                        i = lb + 1;
                    }
                },
            }
        }
        assert(result@ =~= pieces_text(total));
        assert(refs_view(refs@) =~= pieces_refs(total, line_num, seq![]));
        (string_from_chars(&result), refs)
    }
}

/// The heading line shown above a topic's content.
pub open spec fn title_line(t: Seq<char>) -> Seq<char> {
    seq!['\u{2550}', '\u{2550}', '\u{2550}', ' '] + t + seq![' ', '\u{2550}', '\u{2550}', '\u{2550}']
}

/// The line that introduces the related topics.
pub open spec fn see_also_line() -> Seq<char> {
    seq!['S', 'e', 'e', ' ', 'a', 'l', 's', 'o', ':']
}

/// The line listing one related topic.
pub open spec fn arrow_line(link: Seq<char>) -> Seq<char> {
    seq![' ', ' ', '\u{2192}', ' '] + link
}

/// The lines closing a topic: a blank line, the see-also line and one line per
/// related topic, or nothing without related topics.
pub open spec fn see_also_lines(links: Seq<Seq<char>>) -> Seq<Seq<char>> {
    if links.len() == 0 {
        seq![]
    } else {
        seq![seq![], see_also_line()] + links.map_values(|l: Seq<char>| arrow_line(l))
    }
}

/// The cross-references of the related-topic lines, which follow `before` lines.
pub open spec fn see_also_refs(links: Seq<Seq<char>>, before: int) -> Seq<RefView> {
    Seq::new(
        links.len(),
        |m: int| RefView {
            line: (before + 3 + m) as i16,
            offset: 4,
            length: (byte_len(links[m]) as usize) as u8,
            target: links[m],
        },
    )
}

/// The cross-references of the first `n` content lines, shown from line 3 on.
pub open spec fn content_refs(content: Seq<Seq<char>>, n: int) -> Seq<RefView>
    decreases n,
{
    if n <= 0 {
        seq![]
    } else {
        content_refs(content, n - 1) + pieces_refs(pieces_at(content[n - 1], 0), (n + 2) as i16, seq![])
    }
}

/// The views of the strings of `v`.
pub open spec fn strings_view(v: Seq<String>) -> Seq<Seq<char>> {
    v.map_values(|s: String| s@)
}

/// The cross-references of the links among styled runs `segs` on line `line`,
/// the first run starting at byte column `off`.
pub open spec fn seg_refs(segs: Seq<SegView>, line: i16, off: i16) -> Seq<RefView>
    decreases segs.len(),
{
    if segs.len() == 0 {
        seq![]
    } else {
        let len = (byte_len(seg_text(segs[0])) as usize) as i16;
        (match segs[0] {
            SegView::Link(t, target) => seq![RefView {
                line: line,
                offset: off,
                length: (byte_len(t) as usize) as u8,
                target: target,
            }],
            _ => seq![],
        }) + seg_refs(segs.subrange(1, segs.len() as int), line, off.wrapping_add(len))
    }
}

/// The cross-references of the styled runs of the first `n` content lines.
pub open spec fn styled_refs(content: Seq<Seq<char>>, n: int) -> Seq<RefView>
    decreases n,
{
    if n <= 0 {
        seq![]
    } else {
        styled_refs(content, n - 1) + seg_refs(line_segments(content[n - 1]), (n + 2) as i16, 0)
    }
}

/// A line of one plain run.
pub open spec fn plain_line(t: Seq<char>) -> Seq<SegView> {
    seq![SegView::Normal(t)]
}

/// The styled lines closing a topic: blank, see-also, and one line per related
/// topic made of the arrow and a link to it.
pub open spec fn styled_see_also(links: Seq<Seq<char>>) -> Seq<Seq<SegView>> {
    if links.len() == 0 {
        seq![]
    } else {
        seq![plain_line(seq![]), plain_line(see_also_line())] + links.map_values(
            |l: Seq<char>| seq![SegView::Normal(seq![' ', ' ', '\u{2192}', ' ']), SegView::Link(l, l)],
        )
    }
}

/// The chars of the heading line for `title`.
fn title_chars(title: &String) -> (v: Vec<char>)
    ensures
        v@ == title_line(title@),
{
    let mut v: Vec<char> = vec!['\u{2550}', '\u{2550}', '\u{2550}', ' '];
    let t = crate::text::string_chars(title);
    extend_chars(&mut v, &t);
    let tail: Vec<char> = vec![' ', '\u{2550}', '\u{2550}', '\u{2550}'];
    extend_chars(&mut v, &tail);
    v
}

/// The see-also line.
fn see_also_string() -> (s: String)
    ensures
        s@ == see_also_line(),
{
    let v: Vec<char> = vec!['S', 'e', 'e', ' ', 'a', 'l', 's', 'o', ':'];
    string_from_chars(&v)
}

/// The line listing the related topic `link`.
fn arrow_string(link: &String) -> (s: String)
    ensures
        s@ == arrow_line(link@),
{
    let mut v: Vec<char> = vec![' ', ' ', '\u{2192}', ' '];
    let t = crate::text::string_chars(link);
    extend_chars(&mut v, &t);
    string_from_chars(&v)
}

impl HelpTopic {
    pub open spec fn spec_content(&self) -> Seq<Seq<char>> {
        strings_view(self.content@)
    }

    pub open spec fn spec_links(&self) -> Seq<Seq<char>> {
        strings_view(self.links@)
    }

    /// An empty topic.
    pub fn new(id: String, title: String) -> (t: Self)
        ensures
            t.id@ == id@,
            t.title@ == title@,
            t.content@.len() == 0,
            t.links@.len() == 0,
    {
        HelpTopic { id, title, content: Vec::new(), links: Vec::new() }
    }

    /// Append a line of content.
    pub fn add_line(&mut self, line: String)
        ensures
            final(self).spec_content() == old(self).spec_content().push(line@),
            final(self).spec_links() == old(self).spec_links(),
            final(self).id@ == old(self).id@,
            final(self).title@ == old(self).title@,
    {
        self.content.push(line);
        assert(self.spec_content() =~= old(self).spec_content().push(line@));
    }

    /// Record a related topic, unless it is already recorded.
    pub fn add_link(&mut self, topic_id: String)
        ensures
            final(self).spec_links() == (if old(self).spec_links().contains(topic_id@) {
                old(self).spec_links()
            } else {
                old(self).spec_links().push(topic_id@)
            }),
            final(self).spec_content() == old(self).spec_content(),
            final(self).id@ == old(self).id@,
            final(self).title@ == old(self).title@,
    {
        let target = crate::text::string_chars(&topic_id);
        let mut i: usize = 0;
        while i < self.links.len()
            invariant
                i <= self.links@.len(),
                target@ == topic_id@,
                self == old(self),
                forall|k: int| 0 <= k < i ==> self.spec_links()[k] != topic_id@,
            decreases self.links@.len() - i,
        {
            let other = crate::text::string_chars(&self.links[i]);
            if crate::text::chars_equal(&other, &target) {
                assert(self.spec_links()[i as int] == topic_id@);
                return;
            }
            i = i + 1;
        }
        assert(!self.spec_links().contains(topic_id@));
        self.links.push(topic_id);
        assert(self.spec_links() =~= old(self).spec_links().push(topic_id@));
    }

    /// The lines shown for the topic: the heading, a blank line, the content,
    /// and the related topics when there are any.
    pub fn get_formatted_content(&self) -> (lines: Vec<String>)
        ensures
            strings_view(lines@) == seq![title_line(self.title@), Seq::<char>::empty()] + self.spec_content()
                + see_also_lines(self.spec_links()),
    {
        let mut lines: Vec<String> = Vec::new();
        lines.push(string_from_chars(&title_chars(&self.title)));
        lines.push(String::new());
        let mut k: usize = 0;
        while k < self.content.len()
            invariant
                k <= self.content@.len(),
                strings_view(lines@) == seq![title_line(self.title@), Seq::<char>::empty()]
                    + self.spec_content().subrange(0, k as int),
            decreases self.content@.len() - k,
        {
            let ghost prev = lines@;
            let line = self.content[k].clone();
            lines.push(line);
            assert(strings_view(lines@) =~= strings_view(prev).push(self.spec_content()[k as int]));
            assert(self.spec_content().subrange(0, k + 1) =~= self.spec_content().subrange(0, k as int).push(self.spec_content()[k as int]));
            k = k + 1;
            assert(strings_view(lines@) =~= seq![title_line(self.title@), Seq::<char>::empty()]
                + self.spec_content().subrange(0, k as int));
        }
        assert(self.spec_content().subrange(0, k as int) =~= self.spec_content());
        let ghost head = strings_view(lines@);
        if self.links.len() > 0 {
            lines.push(String::new());
            lines.push(see_also_string());
            let mut m: usize = 0;
            while m < self.links.len()
                invariant
                    m <= self.links@.len(),
                    self.links@.len() > 0,
                    strings_view(lines@) == head + seq![Seq::<char>::empty(), see_also_line()]
                        + self.spec_links().subrange(0, m as int).map_values(|l: Seq<char>| arrow_line(l)),
                decreases self.links@.len() - m,
            {
                let ghost prev = lines@;
                lines.push(arrow_string(&self.links[m]));
                assert(strings_view(lines@) =~= strings_view(prev).push(arrow_line(self.spec_links()[m as int])));
                assert(self.spec_links().subrange(0, m + 1).map_values(|l: Seq<char>| arrow_line(l))
                    =~= self.spec_links().subrange(0, m as int).map_values(|l: Seq<char>| arrow_line(l)).push(arrow_line(self.spec_links()[m as int])));
                m = m + 1;
                assert(strings_view(lines@) =~= head + seq![Seq::<char>::empty(), see_also_line()]
                    + self.spec_links().subrange(0, m as int).map_values(|l: Seq<char>| arrow_line(l)));
            }
            assert(self.spec_links().subrange(0, m as int) =~= self.spec_links());
        }
        assert(strings_view(lines@) =~= seq![title_line(self.title@), Seq::<char>::empty()] + self.spec_content()
            + see_also_lines(self.spec_links()));
        lines
    }

    /// The lines shown for the topic with the markdown of the links dropped, and
    /// the cross-references of the links: those inside the content, then one per
    /// related topic.
    pub fn get_content_with_refs(&self) -> (r: (Vec<String>, Vec<CrossRef>))
        ensures
            strings_view(r.0@) == seq![title_line(self.title@), Seq::<char>::empty()]
                + self.spec_content().map_values(|c: Seq<char>| pieces_text(pieces_at(c, 0)))
                + see_also_lines(self.spec_links()),
            refs_view(r.1@) == content_refs(self.spec_content(), self.spec_content().len() as int)
                + see_also_refs(self.spec_links(), 2 + self.spec_content().len() as int),
    {
        let mut lines: Vec<String> = Vec::new();
        let mut refs: Vec<CrossRef> = Vec::new();
        lines.push(string_from_chars(&title_chars(&self.title)));
        lines.push(String::new());
        let mut k: usize = 0;
        while k < self.content.len()
            invariant
                k <= self.content@.len(),
                lines@.len() == 2 + k,
                strings_view(lines@) == seq![title_line(self.title@), Seq::<char>::empty()]
                    + self.spec_content().subrange(0, k as int).map_values(|c: Seq<char>| pieces_text(pieces_at(c, 0))),
                refs_view(refs@) == content_refs(self.spec_content(), k as int),
            decreases self.content@.len() - k,
        {
            let line_num = (lines.len() as u128 + 1) as i16;
            let (processed, line_refs) = HelpTopic::process_line_links(self.content[k].as_str(), line_num);
            let ghost prev = lines@;
            lines.push(processed);
            assert(strings_view(lines@) =~= strings_view(prev).push(pieces_text(pieces_at(self.spec_content()[k as int], 0))));
            assert(self.spec_content().subrange(0, k + 1).map_values(|c: Seq<char>| pieces_text(pieces_at(c, 0)))
                =~= self.spec_content().subrange(0, k as int).map_values(|c: Seq<char>| pieces_text(pieces_at(c, 0)))
                .push(pieces_text(pieces_at(self.spec_content()[k as int], 0))));
            let mut j: usize = 0;
            let ghost base = refs_view(refs@);
            while j < line_refs.len()
                invariant
                    j <= line_refs@.len(),
                    refs_view(refs@) == base + refs_view(line_refs@).subrange(0, j as int),
                decreases line_refs@.len() - j,
            {
                let ghost prevr = refs@;
                let r = CrossRef::new(line_refs[j].line, line_refs[j].offset, line_refs[j].length, line_refs[j].target.clone());
                refs.push(r);
                assert(refs_view(refs@) =~= refs_view(prevr).push(refs_view(line_refs@)[j as int]));
                j = j + 1;
                assert(refs_view(refs@) =~= base + refs_view(line_refs@).subrange(0, j as int));
            }
            assert(refs_view(line_refs@).subrange(0, j as int) =~= refs_view(line_refs@));
            k = k + 1;
            assert(strings_view(lines@) =~= seq![title_line(self.title@), Seq::<char>::empty()]
                + self.spec_content().subrange(0, k as int).map_values(|c: Seq<char>| pieces_text(pieces_at(c, 0))));
        }
        assert(self.spec_content().subrange(0, k as int) =~= self.spec_content());
        let ghost head = strings_view(lines@);
        let ghost rhead = refs_view(refs@);
        if self.links.len() > 0 {
            lines.push(String::new());
            lines.push(see_also_string());
            let mut m: usize = 0;
            while m < self.links.len()
                invariant
                    m <= self.links@.len(),
                    self.links@.len() > 0,
                    lines@.len() == 4 + self.content@.len() + m,
                    strings_view(lines@) == head + seq![Seq::<char>::empty(), see_also_line()]
                        + self.spec_links().subrange(0, m as int).map_values(|l: Seq<char>| arrow_line(l)),
                    refs_view(refs@) == rhead + see_also_refs(self.spec_links(), 2 + self.spec_content().len() as int).subrange(0, m as int),
                decreases self.links@.len() - m,
            {
                let line_num = (lines.len() as u128 + 1) as i16;
                let length = self.links[m].as_str().len() as u8;
                let ghost prevr = refs@;
                refs.push(CrossRef::new(line_num, 4, length, self.links[m].clone()));
                assert(refs_view(refs@) =~= refs_view(prevr).push(see_also_refs(self.spec_links(), 2 + self.spec_content().len() as int)[m as int]));
                let ghost prev = lines@;
                lines.push(arrow_string(&self.links[m]));
                assert(strings_view(lines@) =~= strings_view(prev).push(arrow_line(self.spec_links()[m as int])));
                assert(self.spec_links().subrange(0, m + 1).map_values(|l: Seq<char>| arrow_line(l))
                    =~= self.spec_links().subrange(0, m as int).map_values(|l: Seq<char>| arrow_line(l)).push(arrow_line(self.spec_links()[m as int])));
                m = m + 1;
                assert(strings_view(lines@) =~= head + seq![Seq::<char>::empty(), see_also_line()]
                    + self.spec_links().subrange(0, m as int).map_values(|l: Seq<char>| arrow_line(l)));
                assert(refs_view(refs@) =~= rhead + see_also_refs(self.spec_links(), 2 + self.spec_content().len() as int).subrange(0, m as int));
            }
            assert(self.spec_links().subrange(0, m as int) =~= self.spec_links());
            assert(see_also_refs(self.spec_links(), 2 + self.spec_content().len() as int).subrange(0, m as int)
                =~= see_also_refs(self.spec_links(), 2 + self.spec_content().len() as int));
        } else {
            assert(see_also_refs(self.spec_links(), 2 + self.spec_content().len() as int) =~= Seq::<RefView>::empty());
        }
        assert(strings_view(lines@) =~= seq![title_line(self.title@), Seq::<char>::empty()]
            + self.spec_content().map_values(|c: Seq<char>| pieces_text(pieces_at(c, 0)))
            + see_also_lines(self.spec_links()));
        assert(refs_view(refs@) =~= content_refs(self.spec_content(), self.spec_content().len() as int)
            + see_also_refs(self.spec_links(), 2 + self.spec_content().len() as int));
        (lines, refs)
    }

    /// The number of cross-references of the topic.
    pub fn num_cross_refs(&self) -> (n: usize)
        ensures
            n == content_refs(self.spec_content(), self.spec_content().len() as int).len()
                + self.spec_links().len(),
    {
        let (_, refs) = self.get_content_with_refs();
        assert(refs_view(refs@).len() == refs@.len());
        refs.len()
    }
}

/// The views of lines of runs.
pub open spec fn lines_view(lines: Seq<Vec<TextSegment>>) -> Seq<Seq<SegView>> {
    lines.map_values(|l: Vec<TextSegment>| segs_view(l@))
}

impl HelpTopic {
    /// The topic as lines of styled runs: the heading, a blank line, each content
    /// line split into runs, and the related topics as links; with the
    /// cross-references of every link, columns counted in bytes.
    pub fn get_styled_content(&self) -> (r: (Vec<Vec<TextSegment>>, Vec<CrossRef>))
        ensures
            lines_view(r.0@) == seq![plain_line(title_line(self.title@)), plain_line(seq![])]
                + self.spec_content().map_values(|c: Seq<char>| line_segments(c))
                + styled_see_also(self.spec_links()),
            refs_view(r.1@) == styled_refs(self.spec_content(), self.spec_content().len() as int)
                + see_also_refs(self.spec_links(), 2 + self.spec_content().len() as int),
    {
        let mut all: Vec<Vec<TextSegment>> = Vec::new();
        let mut refs: Vec<CrossRef> = Vec::new();
        let mut first: Vec<TextSegment> = Vec::new();
        first.push(TextSegment::Normal(string_from_chars(&title_chars(&self.title))));
        assert(segs_view(first@) =~= plain_line(title_line(self.title@)));
        all.push(first);
        let mut second: Vec<TextSegment> = Vec::new();
        second.push(TextSegment::Normal(String::new()));
        assert(segs_view(second@) =~= plain_line(seq![]));
        all.push(second);
        assert(lines_view(all@) =~= seq![plain_line(title_line(self.title@)), plain_line(seq![])]);
        let mut k: usize = 0;
        while k < self.content.len()
            invariant
                k <= self.content@.len(),
                all@.len() == 2 + k,
                lines_view(all@) == seq![plain_line(title_line(self.title@)), plain_line(seq![])]
                    + self.spec_content().subrange(0, k as int).map_values(|c: Seq<char>| line_segments(c)),
                refs_view(refs@) == styled_refs(self.spec_content(), k as int),
            decreases self.content@.len() - k,
        {
            let segs = HelpTopic::parse_line_segments(self.content[k].as_str());
            let line_num = (all.len() as u128 + 1) as i16;
            let mut offset: i16 = 0;
            let mut j: usize = 0;
            let ghost base = refs_view(refs@);
            let ghost sv = segs_view(segs@);
            assert(sv.subrange(0, sv.len() as int) =~= sv);
            while j < segs.len()
                invariant
                    j <= segs@.len(),
                    sv == segs_view(segs@),
                    refs_view(refs@) + seg_refs(sv.subrange(j as int, sv.len() as int), line_num, offset)
                        == base + seg_refs(sv, line_num, 0),
                decreases segs@.len() - j,
            {
                let ghost rest = sv.subrange(j as int, sv.len() as int);
                assert(rest.subrange(1, rest.len() as int) =~= sv.subrange(j + 1, sv.len() as int));
                assert(rest[0] == segs@[j as int]@);
                let ghost prevr = refs_view(refs@);
                let ghost off0 = offset;
                let seg_len = segs[j].len() as i16;
                let ghost head = match rest[0] {
                    SegView::Link(t, target) => seq![RefView {
                        line: line_num,
                        offset: off0,
                        length: (byte_len(t) as usize) as u8,
                        target: target,
                    }],
                    _ => Seq::<RefView>::empty(),
                };
                assert(seg_refs(rest, line_num, off0) == head + seg_refs(rest.subrange(1, rest.len() as int), line_num, off0.wrapping_add(seg_len)));
                match &segs[j] {
                    TextSegment::Link { text, target } => {
                        let length = text.as_str().len() as u8;
                        refs.push(CrossRef::new(line_num, offset, length, target.clone()));
                        assert(refs_view(refs@) =~= prevr + head);
                    },
                    _ => {
                        assert(refs_view(refs@) =~= prevr + head);
                    },
                }
                offset = offset.wrapping_add(seg_len);
                j = j + 1;
                assert(refs_view(refs@) + seg_refs(sv.subrange(j as int, sv.len() as int), line_num, offset)
                    =~= prevr + seg_refs(rest, line_num, off0));
            }
            assert(sv.subrange(j as int, sv.len() as int) =~= Seq::<SegView>::empty());
            let ghost prev = all@;
            all.push(segs);
            assert(lines_view(all@) =~= lines_view(prev).push(line_segments(self.spec_content()[k as int])));
            assert(self.spec_content().subrange(0, k + 1).map_values(|c: Seq<char>| line_segments(c))
                =~= self.spec_content().subrange(0, k as int).map_values(|c: Seq<char>| line_segments(c))
                .push(line_segments(self.spec_content()[k as int])));
            k = k + 1;
            assert(refs_view(refs@) =~= styled_refs(self.spec_content(), k as int));
        }
        assert(self.spec_content().subrange(0, k as int) =~= self.spec_content());
        let ghost head = lines_view(all@);
        let ghost rhead = refs_view(refs@);
        if self.links.len() > 0 {
            let mut blank: Vec<TextSegment> = Vec::new();
            blank.push(TextSegment::Normal(String::new()));
            assert(segs_view(blank@) =~= plain_line(seq![]));
            all.push(blank);
            let mut see: Vec<TextSegment> = Vec::new();
            see.push(TextSegment::Normal(see_also_string()));
            assert(segs_view(see@) =~= plain_line(see_also_line()));
            all.push(see);
            assert(lines_view(all@) =~= head + seq![plain_line(seq![]), plain_line(see_also_line())]);
            let mut m: usize = 0;
            while m < self.links.len()
                invariant
                    m <= self.links@.len(),
                    self.links@.len() > 0,
                    all@.len() == 4 + self.content@.len() + m,
                    lines_view(all@) == head + seq![plain_line(seq![]), plain_line(see_also_line())]
                        + self.spec_links().subrange(0, m as int).map_values(
                        |l: Seq<char>| seq![SegView::Normal(seq![' ', ' ', '\u{2192}', ' ']), SegView::Link(l, l)],
                    ),
                    refs_view(refs@) == rhead + see_also_refs(self.spec_links(), 2 + self.spec_content().len() as int).subrange(0, m as int),
                decreases self.links@.len() - m,
            {
                let line_num = (all.len() as u128 + 1) as i16;
                let length = self.links[m].as_str().len() as u8;
                let ghost prevr = refs@;
                refs.push(CrossRef::new(line_num, 4, length, self.links[m].clone()));
                assert(refs_view(refs@) =~= refs_view(prevr).push(see_also_refs(self.spec_links(), 2 + self.spec_content().len() as int)[m as int]));
                let mut row: Vec<TextSegment> = Vec::new();
                let arrow: Vec<char> = vec![' ', ' ', '\u{2192}', ' '];
                row.push(TextSegment::Normal(string_from_chars(&arrow)));
                row.push(TextSegment::Link { text: self.links[m].clone(), target: self.links[m].clone() });
                let ghost lm = self.spec_links()[m as int];
                assert(segs_view(row@) =~= seq![SegView::Normal(seq![' ', ' ', '\u{2192}', ' ']), SegView::Link(lm, lm)]);
                let ghost prev = all@;
                all.push(row);
                assert(lines_view(all@) =~= lines_view(prev).push(seq![SegView::Normal(seq![' ', ' ', '\u{2192}', ' ']), SegView::Link(lm, lm)]));
                assert(self.spec_links().subrange(0, m + 1).map_values(
                        |l: Seq<char>| seq![SegView::Normal(seq![' ', ' ', '\u{2192}', ' ']), SegView::Link(l, l)])
                    =~= self.spec_links().subrange(0, m as int).map_values(
                        |l: Seq<char>| seq![SegView::Normal(seq![' ', ' ', '\u{2192}', ' ']), SegView::Link(l, l)])
                    .push(seq![SegView::Normal(seq![' ', ' ', '\u{2192}', ' ']), SegView::Link(lm, lm)]));
                m = m + 1;
                assert(refs_view(refs@) =~= rhead + see_also_refs(self.spec_links(), 2 + self.spec_content().len() as int).subrange(0, m as int));
            }
            assert(self.spec_links().subrange(0, m as int) =~= self.spec_links());
            assert(see_also_refs(self.spec_links(), 2 + self.spec_content().len() as int).subrange(0, m as int)
                =~= see_also_refs(self.spec_links(), 2 + self.spec_content().len() as int));
        } else {
            assert(see_also_refs(self.spec_links(), 2 + self.spec_content().len() as int) =~= Seq::<RefView>::empty());
        }
        assert(lines_view(all@) =~= seq![plain_line(title_line(self.title@)), plain_line(seq![])]
            + self.spec_content().map_values(|c: Seq<char>| line_segments(c))
            + styled_see_also(self.spec_links()));
        assert(refs_view(refs@) =~= styled_refs(self.spec_content(), self.spec_content().len() as int)
            + see_also_refs(self.spec_links(), 2 + self.spec_content().len() as int));
        (all, refs)
    }
}

/// The content of a topic.
pub struct TopicView {
    pub id: Seq<char>,
    pub title: Seq<char>,
    pub content: Seq<Seq<char>>,
    pub links: Seq<Seq<char>>,
}

impl HelpTopic {
    pub open spec fn tview(&self) -> TopicView {
        TopicView { id: self.id@, title: self.title@, content: self.spec_content(), links: self.spec_links() }
    }
}

pub open spec fn pat_id_open() -> Seq<char> {
    seq!['{', '#']
}

pub open spec fn pat_id_close() -> Seq<char> {
    seq!['}']
}

/// The id and title of a heading line `# Title {#id}`.
pub open spec fn header_of(line: Seq<char>) -> Option<(Seq<char>, Seq<char>)> {
    let t = trim(line);
    if t.len() == 0 || t[0] != '#' {
        None
    } else {
        match find_from(t, pat_id_open(), 0) {
            None => None,
            Some(st) => match find_from(t, pat_id_close(), st) {
                None => None,
                Some(en) => Some((t.subrange(st + 2, en), trim(t.subrange(1, st)))),
            },
        }
    }
}

/// The target of the first link `[text](#id)` of a line.
pub open spec fn link_of(line: Seq<char>) -> Option<Seq<char>> {
    match find_from(line, pat_link_mid(), 0) {
        None => None,
        Some(st) => match find_from(line, pat_close(), st) {
            None => None,
            Some(en) => Some(line.subrange(st + 3, en)),
        },
    }
}

/// Where reading the lines has got to: the finished topics by id, the first
/// finished topic's id, and the topic being read.
pub struct ParseView {
    pub topics: Map<Seq<char>, TopicView>,
    pub default: Option<Seq<char>>,
    pub current: Option<TopicView>,
}

/// File the topic being read, if any: it becomes the default when there is none yet.
pub open spec fn save_current(st: ParseView) -> ParseView {
    match st.current {
        Some(t) => ParseView {
            topics: st.topics.insert(t.id, t),
            default: if st.default is None { Some(t.id) } else { st.default },
            current: None,
        },
        None => st,
    }
}

/// `t` with `link` among its related topics.
pub open spec fn topic_with_link(t: TopicView, link: Seq<char>) -> TopicView {
    if t.links.contains(link) { t } else { TopicView { links: t.links.push(link), ..t } }
}

/// Read one line: a heading files the current topic and starts a new one;
/// another line goes to the current topic, if any, recording the target of its
/// first link and kept unless it is blank before any content.
pub open spec fn parse_step(st: ParseView, line: Seq<char>) -> ParseView {
    match header_of(line) {
        Some(h) => ParseView {
            current: Some(TopicView { id: h.0, title: h.1, content: seq![], links: seq![] }),
            ..save_current(st)
        },
        None => match st.current {
            Some(t) => {
                let t1 = match link_of(line) { Some(l) => topic_with_link(t, l), None => t };
                let t2 = if t1.content.len() > 0 || trim(line).len() > 0 {
                    TopicView { content: t1.content.push(line), ..t1 }
                } else {
                    t1
                };
                ParseView { current: Some(t2), ..st }
            },
            None => st,
        },
    }
}

/// The state after reading the first `n` of `lines`.
pub open spec fn parse_lines(lines: Seq<Seq<char>>, n: int) -> ParseView
    decreases n,
{
    if n <= 0 {
        ParseView { topics: Map::empty(), default: None, current: None }
    } else {
        parse_step(parse_lines(lines, n - 1), lines[n - 1])
    }
}

/// The topics of the markdown text `content`.
pub open spec fn parsed(content: Seq<char>) -> ParseView {
    let lines = lines_from(content, 0);
    save_current(parse_lines(lines, lines.len() as int))
}

/// Ids strictly increase along `ts`.
pub open spec fn ids_sorted(ts: Seq<TopicView>) -> bool {
    forall|i: int, j: int| 0 <= i < j < ts.len() ==> seq_lt(ts[i].id, ts[j].id)
}

/// `ts` lists exactly the topics of `m`.
pub open spec fn represents(ts: Seq<TopicView>, m: Map<Seq<char>, TopicView>) -> bool {
    &&& forall|i: int| 0 <= i < ts.len() ==> #[trigger] m.contains_key(ts[i].id) && m[ts[i].id] == ts[i]
    &&& forall|k: Seq<char>| #[trigger] m.contains_key(k) ==> exists|i: int| 0 <= i < ts.len() && ts[i].id == k
}

/// The topics of `v`.
pub open spec fn topics_view(v: Seq<HelpTopic>) -> Seq<TopicView> {
    v.map_values(|t: HelpTopic| t.tview())
}

/// A loaded help file: its path, its topics in order of id, the first topic.
pub struct HelpFile {
    path: String,
    topics: Vec<HelpTopic>,
    default_topic: Option<String>,
}

impl HelpFile {
    pub closed spec fn spec_path(&self) -> Seq<char> {
        self.path@
    }

    /// The topics, in increasing order of id.
    pub closed spec fn spec_topics(&self) -> Seq<TopicView> {
        topics_view(self.topics@)
    }

    pub closed spec fn spec_default(&self) -> Option<Seq<char>> {
        match self.default_topic {
            Some(s) => Some(s@),
            None => None,
        }
    }

    pub open spec fn wf(&self) -> bool {
        ids_sorted(self.spec_topics())
    }

    /// Whether the topics and default are those of the markdown text `content`.
    pub open spec fn holds(&self, content: Seq<char>) -> bool {
        &&& self.wf()
        &&& represents(self.spec_topics(), parsed(content).topics)
        &&& self.spec_default() == parsed(content).default
    }
}

/// Distinct places of a sorted list hold distinct ids.
proof fn lemma_sorted_ids_distinct(ts: Seq<TopicView>, i: int, j: int)
    requires
        ids_sorted(ts),
        0 <= i < ts.len(),
        0 <= j < ts.len(),
        i != j,
    ensures
        ts[i].id != ts[j].id,
{
    lemma_seq_lt_trichotomy(ts[i].id, ts[j].id);
    lemma_seq_lt_trichotomy(ts[i].id, ts[i].id);
}

/// File `t` among the sorted `topics`, replacing a topic of the same id.
fn insert_topic(topics: &mut Vec<HelpTopic>, t: HelpTopic, Ghost(m): Ghost<Map<Seq<char>, TopicView>>)
    requires
        ids_sorted(topics_view(old(topics)@)),
        represents(topics_view(old(topics)@), m),
    ensures
        ids_sorted(topics_view(final(topics)@)),
        represents(topics_view(final(topics)@), m.insert(t.id@, t.tview())),
{
    let key = crate::text::string_chars(&t.id);
    let ghost old_v = topics_view(topics@);
    let ghost tv = t.tview();
    let ghost m2 = m.insert(t.id@, tv);
    let mut p: usize = 0;
    let mut found = false;
    let mut stop = false;
    while p < topics.len() && !stop
        invariant
            topics@ == old(topics)@,
            old_v == topics_view(topics@),
            key@ == t.id@,
            p <= topics@.len(),
            forall|i: int| 0 <= i < p ==> seq_lt(#[trigger] old_v[i].id, key@),
            found ==> stop,
            stop ==> p < topics@.len() && (found ==> old_v[p as int].id == key@)
                && (!found ==> seq_lt(key@, old_v[p as int].id)),
        decreases topics@.len() - p + (if stop { 0int } else { 1int }),
    {
        let other = crate::text::string_chars(&topics[p].id);
        assert(other@ == old_v[p as int].id);
        match compare_chars(&other, &key) {
            Order::Before => {
                p = p + 1;
            },
            Order::Same => {
                found = true;
                stop = true;
            },
            Order::After => {
                stop = true;
            },
        }
    }
    if found {
        topics.set(p, t);
        let ghost nv = topics_view(topics@);
        assert(nv =~= old_v.update(p as int, tv));
        assert forall|i: int, j: int| 0 <= i < j < nv.len() implies seq_lt(nv[i].id, nv[j].id) by {}
        assert forall|i: int| 0 <= i < nv.len() implies #[trigger] m2.contains_key(nv[i].id) && m2[nv[i].id] == nv[i] by {
            if i != p {
                lemma_sorted_ids_distinct(old_v, i, p as int);
                assert(m.contains_key(old_v[i].id));
            }
        }
        assert forall|k: Seq<char>| #[trigger] m2.contains_key(k) implies exists|i: int| 0 <= i < nv.len() && nv[i].id == k by {
            if k == t.id@ {
                assert(nv[p as int].id == k);
            } else {
                assert(m.contains_key(k));
                let i = choose|i: int| 0 <= i < old_v.len() && old_v[i].id == k;
                assert(nv[i].id == k);
            }
        }
        assert(represents(nv, m2));
        assert(ids_sorted(nv));
    } else {
        topics.insert(p, t);
        let ghost nv = topics_view(topics@);
        assert(nv =~= old_v.insert(p as int, tv));
        assert forall|i: int, j: int| 0 <= i < j < nv.len() implies seq_lt(nv[i].id, nv[j].id) by {
            if j == p {
            } else if i == p {
                if j - 1 > p {
                    lemma_seq_lt_trans(key@, old_v[p as int].id, old_v[j - 1].id);
                }
            } else if i < p && j > p {
                if j - 1 > p {
                    lemma_seq_lt_trans(key@, old_v[p as int].id, old_v[j - 1].id);
                }
                if j - 1 >= p {
                    lemma_seq_lt_trans(old_v[i].id, key@, old_v[j - 1].id);
                }
            }
        }
        assert forall|i: int| 0 <= i < nv.len() implies #[trigger] m2.contains_key(nv[i].id) && m2[nv[i].id] == nv[i] by {
            if i != p {
                let oi = if i < p { i } else { i - 1 };
                assert(nv[i] == old_v[oi]);
                assert(m.contains_key(old_v[oi].id));
                lemma_seq_lt_trichotomy(old_v[oi].id, key@);
                if oi >= p {
                    if oi > p {
                        lemma_seq_lt_trans(key@, old_v[p as int].id, old_v[oi].id);
                    }
                }
            }
        }
        assert forall|k: Seq<char>| #[trigger] m2.contains_key(k) implies exists|i: int| 0 <= i < nv.len() && nv[i].id == k by {
            if k == t.id@ {
                assert(nv[p as int].id == k);
            } else {
                assert(m.contains_key(k));
                let i = choose|i: int| 0 <= i < old_v.len() && old_v[i].id == k;
                if i < p {
                    assert(nv[i].id == k);
                } else {
                    assert(nv[i + 1].id == k);
                }
            }
        }
        assert(represents(nv, m2));
        assert(ids_sorted(nv));
    }
}

impl HelpFile {
    /// The new topic a heading line `# Title {#id}` starts.
    fn parse_topic_header(line: &Vec<char>) -> (r: Option<HelpTopic>)
        ensures
            match header_of(line@) {
                Some(h) => r matches Some(t) && t.tview() == (TopicView { id: h.0, title: h.1, content: seq![], links: seq![] }),
                None => r is None,
            },
    {
        let t = trim_chars(line);
        if t.len() == 0 || t[0] != '#' {
            return None;
        }
        let open: Vec<char> = vec!['{', '#'];
        let close: Vec<char> = vec!['}'];
        assert(open@ == pat_id_open());
        assert(close@ == pat_id_close());
        match find_chars(&t, 0, &open) {
            None => None,
            Some(st) => {
                proof {
                    lemma_find_from(t@, pat_id_open(), 0);
                    lemma_find_from(t@, pat_id_close(), st as int);
                }
                match find_chars(&t, st, &close) {
                    None => None,
                    Some(en) => {
                        assert(t@[st as int] == '{' && t@[st + 1] == '#') by {
                            assert(t@.subrange(st as int, st + 2) == pat_id_open());
                            assert(t@.subrange(st as int, st + 2)[0] == t@[st as int]);
                            assert(t@.subrange(st as int, st + 2)[1] == t@[st + 1]);
                        }
                        assert(en >= st + 2) by {
                            assert(!crate::text::matches_at(t@, st as int, pat_id_close())) by {
                                assert(t@.subrange(st as int, st + 1)[0] == t@[st as int]);
                            }
                            assert(!crate::text::matches_at(t@, st + 1, pat_id_close())) by {
                                assert(t@.subrange(st + 1, st + 2)[0] == t@[st + 1]);
                            }
                        }
                        let id = sub_chars(&t, st + 2, en);
                        let raw_title = sub_chars(&t, 1, st);
                        let title = trim_chars(&raw_title);
                        let topic = HelpTopic::new(string_from_chars(&id), string_from_chars(&title));
                        assert(topic.spec_content() =~= Seq::<Seq<char>>::empty());
                        assert(topic.spec_links() =~= Seq::<Seq<char>>::empty());
                        Some(topic)
                    },
                }
            },
        }
    }

    /// The target of the first link `[text](#id)` of `line`.
    fn parse_link(line: &Vec<char>) -> (r: Option<String>)
        ensures
            match link_of(line@) {
                Some(l) => r matches Some(s) && s@ == l,
                None => r is None,
            },
    {
        let mid: Vec<char> = vec![']', '(', '#'];
        let close: Vec<char> = vec![')'];
        assert(mid@ == pat_link_mid());
        assert(close@ == pat_close());
        match find_chars(line, 0, &mid) {
            None => None,
            Some(st) => {
                proof {
                    lemma_find_from(line@, pat_link_mid(), 0);
                    lemma_find_from(line@, pat_close(), st as int);
                }
                match find_chars(line, st, &close) {
                    None => None,
                    Some(en) => {
                        assert(line@[st as int] == ']' && line@[st + 1] == '(' && line@[st + 2] == '#') by {
                            let w = line@.subrange(st as int, st + 3);
                            assert(w == pat_link_mid());
                            assert(w[0] == line@[st as int]);
                            assert(w[1] == line@[st + 1]);
                            assert(w[2] == line@[st + 2]);
                        }
                        assert(en >= st + 3) by {
                            assert(!crate::text::matches_at(line@, st as int, pat_close())) by {
                                assert(line@.subrange(st as int, st + 1)[0] == line@[st as int]);
                            }
                            assert(!crate::text::matches_at(line@, st + 1, pat_close())) by {
                                assert(line@.subrange(st + 1, st + 2)[0] == line@[st + 1]);
                            }
                            assert(!crate::text::matches_at(line@, st + 2, pat_close())) by {
                                assert(line@.subrange(st + 2, st + 3)[0] == line@[st + 2]);
                            }
                        }
                        Some(string_from_chars(&sub_chars(line, st + 3, en)))
                    },
                }
            },
        }
    }
}

/// The view of a topic being read, if any.
pub open spec fn opt_tview(o: Option<HelpTopic>) -> Option<TopicView> {
    match o {
        Some(t) => Some(t.tview()),
        None => None,
    }
}

impl HelpFile {
    /// File the topic being read, if any, as `save_current` describes.
    fn save_topic(&mut self, current: Option<HelpTopic>, Ghost(st): Ghost<ParseView>)
        requires
            old(self).wf(),
            represents(old(self).spec_topics(), st.topics),
            old(self).spec_default() == st.default,
            opt_tview(current) == st.current,
        ensures
            final(self).wf(),
            represents(final(self).spec_topics(), save_current(st).topics),
            final(self).spec_default() == save_current(st).default,
            final(self).spec_path() == old(self).spec_path(),
    {
        match current {
            Some(t) => {
                if self.default_topic.is_none() {
                    self.default_topic = Some(t.id.clone());
                }
                insert_topic(&mut self.topics, t, Ghost(st.topics));
            },
            None => {},
        }
    }

    /// Read the markdown text `content` into the (empty) topics.
    fn parse_markdown(&mut self, content: &str)
        requires
            old(self).topics@.len() == 0,
            old(self).default_topic is None,
        ensures
            final(self).holds(content@),
            final(self).spec_path() == old(self).spec_path(),
    {
        let chars = str_chars(content);
        let lines = split_lines(&chars);
        let ghost lv = chars_view(lines@);
        assert(lv == lines_from(content@, 0));
        let mut current: Option<HelpTopic> = None;
        let mut k: usize = 0;
        assert(represents(self.spec_topics(), Map::<Seq<char>, TopicView>::empty()));
        while k < lines.len()
            invariant
                lv == chars_view(lines@),
                k <= lines@.len(),
                self.wf(),
                self.spec_path() == old(self).spec_path(),
                represents(self.spec_topics(), parse_lines(lv, k as int).topics),
                self.spec_default() == parse_lines(lv, k as int).default,
                opt_tview(current) == parse_lines(lv, k as int).current,
            decreases lines@.len() - k,
        {
            let line = &lines[k];
            let ghost st = parse_lines(lv, k as int);
            assert(lv[k as int] == line@);
            match HelpFile::parse_topic_header(line) {
                Some(topic) => {
                    let prev = current;
                    self.save_topic(prev, Ghost(st));
                    current = Some(topic);
                },
                None => {
                    match current {
                        Some(mut t) => {
                            match HelpFile::parse_link(line) {
                                Some(id) => t.add_link(id),
                                None => {},
                            }
                            let trimmed = trim_chars(line);
                            if t.content.len() > 0 || trimmed.len() > 0 {
                                t.add_line(string_from_chars(line));
                            }
                            current = Some(t);
                        },
                        None => {
                            current = None;
                        },
                    }
                },
            }
            k = k + 1;
        }
        let ghost st = parse_lines(lv, k as int);
        let last = current;
        self.save_topic(last, Ghost(st));
    }

    /// A help file at `path` holding the topics of the markdown text `content`.
    pub fn new(path: &str, content: &str) -> (h: Self)
        ensures
            h.holds(content@),
            h.spec_path() == path@,
    {
        let mut h = HelpFile { path: path.to_string(), topics: Vec::new(), default_topic: None };
        h.parse_markdown(content);
        h
    }

    /// Replace the topics with those of `content`, the file's text read again.
    pub fn reload(&mut self, content: &str)
        ensures
            final(self).holds(content@),
            final(self).spec_path() == old(self).spec_path(),
    {
        self.topics = Vec::new();
        self.default_topic = None;
        self.parse_markdown(content);
    }

    /// The file's path.
    pub fn path(&self) -> (p: &str)
        ensures
            p@ == self.spec_path(),
    {
        self.path.as_str()
    }

    /// The index of the topic `id`, if there is one.
    fn topic_index(&self, id: &str) -> (r: Option<usize>)
        requires
            self.wf(),
        ensures
            match r {
                Some(i) => i < self.spec_topics().len() && self.spec_topics()[i as int].id == id@,
                None => forall|i: int| 0 <= i < self.spec_topics().len() ==> self.spec_topics()[i].id != id@,
            },
    {
        let key = str_chars(id);
        let mut i: usize = 0;
        while i < self.topics.len()
            invariant
                key@ == id@,
                i <= self.topics@.len(),
                forall|j: int| 0 <= j < i ==> self.spec_topics()[j].id != id@,
            decreases self.topics@.len() - i,
        {
            let other = crate::text::string_chars(&self.topics[i].id);
            if crate::text::chars_equal(&other, &key) {
                return Some(i);
            }
            i = i + 1;
        }
        None
    }

    /// The topic `id`, if there is one.
    pub fn get_topic(&self, id: &str) -> (r: Option<&HelpTopic>)
        requires
            self.wf(),
        ensures
            match r {
                Some(t) => t.id@ == id@ && exists|i: int| 0 <= i < self.spec_topics().len() && self.spec_topics()[i] == t.tview(),
                None => forall|i: int| 0 <= i < self.spec_topics().len() ==> self.spec_topics()[i].id != id@,
            },
    {
        match self.topic_index(id) {
            Some(i) => {
                assert(self.spec_topics()[i as int] == self.topics@[i as int].tview());
                Some(&self.topics[i])
            },
            None => None,
        }
    }

    /// Whether there is a topic `id`.
    pub fn has_topic(&self, id: &str) -> (b: bool)
        requires
            self.wf(),
        ensures
            b == exists|i: int| 0 <= i < self.spec_topics().len() && self.spec_topics()[i].id == id@,
    {
        self.topic_index(id).is_some()
    }

    /// The first topic of the file.
    pub fn get_default_topic(&self) -> (r: Option<&HelpTopic>)
        requires
            self.wf(),
        ensures
            match self.spec_default() {
                Some(d) => match r {
                    Some(t) => t.id@ == d && exists|i: int| 0 <= i < self.spec_topics().len() && self.spec_topics()[i] == t.tview(),
                    None => forall|i: int| 0 <= i < self.spec_topics().len() ==> self.spec_topics()[i].id != d,
                },
                None => r is None,
            },
    {
        match &self.default_topic {
            Some(id) => self.get_topic(id.as_str()),
            None => None,
        }
    }

    /// The ids of all topics, in increasing order.
    pub fn get_topic_ids(&self) -> (ids: Vec<String>)
        requires
            self.wf(),
        ensures
            strings_view(ids@) == self.spec_topics().map_values(|t: TopicView| t.id),
    {
        let mut ids: Vec<String> = Vec::new();
        let mut i: usize = 0;
        while i < self.topics.len()
            invariant
                i <= self.topics@.len(),
                strings_view(ids@) == self.spec_topics().subrange(0, i as int).map_values(|t: TopicView| t.id),
            decreases self.topics@.len() - i,
        {
            let ghost prev = strings_view(ids@);
            ids.push(self.topics[i].id.clone());
            assert(strings_view(ids@) =~= prev.push(self.spec_topics()[i as int].id));
            i = i + 1;
            assert(strings_view(ids@) =~= self.spec_topics().subrange(0, i as int).map_values(|t: TopicView| t.id));
        }
        assert(self.spec_topics().subrange(0, i as int) =~= self.spec_topics());
        ids
    }
}

/// Builds a help file from its path and text.
pub struct HelpFileBuilder {
    path: Option<String>,
}

impl HelpFileBuilder {
    pub closed spec fn spec_path(&self) -> Option<Seq<char>> {
        match self.path {
            Some(p) => Some(p@),
            None => None,
        }
    }

    pub fn new() -> (b: Self)
        ensures
            b.spec_path() is None,
    {
        HelpFileBuilder { path: None }
    }

    pub fn path(self, path: String) -> (b: Self)
        ensures
            b.spec_path() == Some(path@),
    {
        HelpFileBuilder { path: Some(path) }
    }

    /// The help file at the given path, holding the topics of `content`, the
    /// file's text. The path must have been given.
    pub fn build(self, content: &str) -> (h: HelpFile)
        requires
            self.spec_path() is Some,
        ensures
            h.holds(content@),
            h.spec_path() == self.spec_path()->0,
    {
        match self.path {
            Some(p) => HelpFile::new(p.as_str(), content),
            None => HelpFile::new("", content),
        }
    }
}

impl Default for HelpFileBuilder {
    fn default() -> (b: Self)
        ensures
            b.spec_path() is None,
    {
        HelpFileBuilder::new()
    }
}

} // verus!
