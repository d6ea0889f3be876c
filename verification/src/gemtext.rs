//! The lightweight markup parser: turns response body text into an ordered
//! document of typed lines — text, headings, links and fenced verbatim
//! blocks — each carrying a fresh identifier from a sequence generator.

use crate::text::{is_space, is_space_char, trim_start, trim_start_spec};
use vstd::prelude::*;

verus! {

/// `base + k`, saturating at the largest identifier.
pub open spec fn sat_id(base: u64, k: int) -> u64 {
    if base + k <= u64::MAX {
        (base + k) as u64
    } else {
        u64::MAX
    }
}

/// Hands out identifiers for document lines: monotonically increasing,
/// saturating at the largest value instead of wrapping.
#[derive(Debug)]
pub struct SequenceGenerator {
    pub next: u64,
}

impl SequenceGenerator {
    /// A generator whose first identifier is zero.
    pub fn new() -> (r: SequenceGenerator)
        ensures
            r.next == 0,
    {
        SequenceGenerator { next: 0 }
    }

    /// The next identifier; later calls return values no smaller.
    pub fn fresh(&mut self) -> (r: u64)
        ensures
            r == old(self).next,
            final(self).next == sat_id(old(self).next, 1),
    {
        let r = self.next;
        if self.next < u64::MAX {
            self.next = self.next + 1;
        }
        r
    }
}

/// One typed line of a parsed document.
#[derive(Debug, PartialEq, Eq)]
pub enum GemLine {
    /// A plain text line, kept exactly as written.
    Text(String),
    /// A heading with its level (1 through 3) and text.
    Heading(u8, String),
    /// A link line: target, then label (empty when absent).
    Link(String, String),
    /// A fenced verbatim block: alt text of the opening fence, then the
    /// verbatim contents.
    Preformatted(String, String),
}

/// Mathematical model of [`GemLine`], over character sequences.
pub enum Line {
    Text(Seq<char>),
    Heading(u8, Seq<char>),
    Link(Seq<char>, Seq<char>),
    Preformatted(Seq<char>, Seq<char>),
}

impl View for GemLine {
    type V = Line;

    open spec fn view(&self) -> Line {
        match self {
            GemLine::Text(s) => Line::Text(s@),
            GemLine::Heading(n, s) => Line::Heading(*n, s@),
            GemLine::Link(t, l) => Line::Link(t@, l@),
            GemLine::Preformatted(a, c) => Line::Preformatted(a@, c@),
        }
    }
}

/// An ordered document of identified lines.
#[derive(Debug)]
pub struct GemText(pub Vec<(u64, GemLine)>);

impl View for GemText {
    type V = Seq<(u64, Line)>;

    open spec fn view(&self) -> Seq<(u64, Line)> {
        self.0@.map_values(|p: (u64, GemLine)| (p.0, p.1@))
    }
}

impl GemText {
    /// The line models, in document order, identifiers dropped.
    pub open spec fn doc_lines(&self) -> Seq<Line> {
        self.0@.map_values(|p: (u64, GemLine)| p.1@)
    }

    /// Do the document's identifiers run consecutively up from `base`?
    pub open spec fn ids_from(&self, base: u64) -> bool {
        forall|k: int| 0 <= k < self.0@.len() ==> (#[trigger] self.0@[k].0) == sat_id(base, k)
    }
}

/// The character sequences of a vector of strings.
pub open spec fn views_of(v: Seq<String>) -> Seq<Seq<char>> {
    v.map_values(|x: String| x@)
}

/// The lines of `s`, split at every newline: one more line than there are
/// newline characters, in the text editor convention.
pub open spec fn split_lines(s: Seq<char>) -> Seq<Seq<char>>
    decreases s.len(),
{
    if s.len() == 0 {
        seq![Seq::<char>::empty()]
    } else if s[0] == '\n' {
        seq![Seq::<char>::empty()] + split_lines(s.skip(1))
    } else {
        let rest = split_lines(s.skip(1));
        seq![seq![s[0]] + rest[0]] + rest.skip(1)
    }
}

/// With no newline in `s`, the whole of `s` is the one line.
pub proof fn lemma_split_lines_no_nl(s: Seq<char>)
    requires
        forall|k: int| 0 <= k < s.len() ==> s[k] != '\n',
    ensures
        split_lines(s) == seq![s],
    decreases s.len(),
{
    if s.len() == 0 {
        assert(split_lines(s) =~~= seq![s]);
    } else {
        lemma_split_lines_no_nl(s.skip(1));
        assert(seq![s[0]] + s.skip(1) =~= s);
        assert(split_lines(s) =~~= seq![s]);
    }
}

/// With the first newline of `s` at `i`, the first line is `s` up to `i` and
/// the rest are the lines of what follows the newline.
pub proof fn lemma_split_lines_first(s: Seq<char>, i: int)
    requires
        0 <= i < s.len(),
        s[i] == '\n',
        forall|k: int| 0 <= k < i ==> s[k] != '\n',
    ensures
        split_lines(s) == seq![s.take(i)] + split_lines(s.skip(i + 1)),
    decreases i,
{
    if i == 0 {
        assert(s.take(0) =~= Seq::<char>::empty());
        assert(split_lines(s) =~~= seq![s.take(0)] + split_lines(s.skip(1)));
    } else {
        let t = s.skip(1);
        assert(forall|k: int| 0 <= k < i - 1 ==> t[k] == s[k + 1]);
        assert(t[i - 1] == s[i]);
        lemma_split_lines_first(t, i - 1);
        assert(seq![s[0]] + t.take(i - 1) =~= s.take(i));
        assert(t.skip(i) =~= s.skip(i + 1));
        let rest = split_lines(t);
        assert(rest == seq![t.take(i - 1)] + split_lines(t.skip(i)));
        assert(rest[0] == t.take(i - 1));
        assert(rest.skip(1) =~= split_lines(t.skip(i)));
        assert(split_lines(s) =~~= seq![s.take(i)] + split_lines(s.skip(i + 1)));
    }
}

/// The document lines of `text`: one line per newline-separated segment,
/// a single trailing newline acting as a terminator of the last line rather
/// than opening an empty one after it.
pub open spec fn text_lines(s: Seq<char>) -> Seq<Seq<char>> {
    if s.len() > 0 && s[s.len() - 1] == '\n' {
        split_lines(s.take(s.len() - 1))
    } else {
        split_lines(s)
    }
}

/// Splits `s` into document lines, a trailing newline terminating the last.
pub(crate) fn text_lines_exec(s: &str) -> (r: Vec<String>)
    ensures
        views_of(r@) == text_lines(s@),
{
    let n = s.unicode_len();
    if n > 0 && s.get_char(n - 1) == '\n' {
        let r = split_lines_exec(s.substring_char(0, n - 1));
        proof {
            assert(s@.subrange(0, n - 1) =~= s@.take(n - 1));
        }
        r
    } else {
        split_lines_exec(s)
    }
}

/// Does the line begin with the three-backtick verbatim fence?
pub open spec fn is_fence(line: Seq<char>) -> bool {
    line.len() >= 3 && line[0] == '`' && line[1] == '`' && line[2] == '`'
}

/// Length of the leading run of non-whitespace characters of `s`.
pub open spec fn token_len(s: Seq<char>) -> int
    decreases s.len(),
{
    if s.len() > 0 && !is_space(s[0]) {
        1 + token_len(s.skip(1))
    } else {
        0
    }
}

pub proof fn lemma_token_len_bounds(s: Seq<char>)
    ensures
        0 <= token_len(s) <= s.len(),
        token_len(s) < s.len() ==> is_space(s[token_len(s)]),
        forall|k: int| 0 <= k < token_len(s) ==> !is_space(s[k]),
    decreases s.len(),
{
    if s.len() > 0 && !is_space(s[0]) {
        lemma_token_len_bounds(s.skip(1));
        assert forall|k: int| 0 <= k < token_len(s) implies !is_space(s[k]) by {
            if k > 0 {
                assert(s.skip(1)[k - 1] == s[k]);
            }
        }
        if token_len(s) < s.len() {
            assert(s.skip(1)[token_len(s.skip(1))] == s[token_len(s)]);
        }
    }
}

/// Model of a link line's remainder: after the `=>` marker, leading
/// whitespace is dropped, the first whitespace-delimited token is the
/// target, and what follows it, its own leading whitespace dropped, is the
/// label.
pub open spec fn link_model(after_marker: Seq<char>) -> Line {
    let r = trim_start_spec(after_marker);
    let t = token_len(r);
    Line::Link(r.take(t), trim_start_spec(r.skip(t)))
}

/// Classification of one line outside a verbatim block, the fence case
/// excluded: first match among heading markers and the link marker wins,
/// and anything else is plain text, kept exactly.
pub open spec fn line_model(line: Seq<char>) -> Line {
    if line.len() >= 3 && line[0] == '#' && line[1] == '#' && line[2] == '#' {
        Line::Heading(3, trim_start_spec(line.skip(3)))
    } else if line.len() >= 2 && line[0] == '#' && line[1] == '#' {
        Line::Heading(2, trim_start_spec(line.skip(2)))
    } else if line.len() >= 1 && line[0] == '#' {
        Line::Heading(1, trim_start_spec(line.skip(1)))
    } else if line.len() >= 2 && line[0] == '=' && line[1] == '>' {
        link_model(line.skip(2))
    } else {
        Line::Text(line)
    }
}

/// An open verbatim block: the fence's alt text and the text gathered so far.
pub struct PfState {
    pub alt: Seq<char>,
    pub text: Seq<char>,
}

/// `s` with one trailing newline removed, as a closing fence trims it.
pub open spec fn trim_one_nl(s: Seq<char>) -> Seq<char> {
    if s.len() > 0 && s[s.len() - 1] == '\n' {
        s.take(s.len() - 1)
    } else {
        s
    }
}

/// One step of the line-oriented parse: `acc` is the emitted lines and the
/// open verbatim block, `line` the next source line.
pub open spec fn pstep(acc: (Seq<Line>, Option<PfState>), line: Seq<char>) -> (
    Seq<Line>,
    Option<PfState>,
) {
    match acc.1 {
        Some(st) => {
            if is_fence(line) {
                (acc.0.push(Line::Preformatted(st.alt, trim_one_nl(st.text))), None)
            } else {
                (acc.0, Some(PfState { alt: st.alt, text: st.text + line + seq!['\n'] }))
            }
        },
        None => {
            if is_fence(line) {
                (acc.0, Some(PfState { alt: line.skip(3), text: Seq::<char>::empty() }))
            } else {
                (acc.0.push(line_model(line)), None)
            }
        },
    }
}

/// The parse state after the first `i` of `lines`.
pub open spec fn prun(lines: Seq<Seq<char>>, i: int) -> (Seq<Line>, Option<PfState>)
    decreases i,
{
    if i <= 0 {
        (Seq::<Line>::empty(), None::<PfState>)
    } else {
        pstep(prun(lines, i - 1), lines[i - 1])
    }
}

/// The document produced by parsing `text` as markup: its lines processed
/// in order, an unterminated verbatim block running to the end of the input.
pub open spec fn parse_models(text: Seq<char>) -> Seq<Line> {
    let lines = text_lines(text);
    let acc = prun(lines, lines.len() as int);
    match acc.1 {
        None => acc.0,
        Some(st) => acc.0.push(Line::Preformatted(st.alt, trim_one_nl(st.text))),
    }
}

/// Law: parsing is the identity on one already-canonical text line. Text
/// that holds no newline and begins with no markup-significant prefix — no
/// heading marker, no link marker, no fence — parses to exactly the single
/// plain text line holding it.
pub proof fn lemma_parse_plain_text_line(s: Seq<char>)
    requires
        forall|k: int| 0 <= k < s.len() ==> s[k] != '\n',
        !(s.len() >= 1 && s[0] == '#'),
        !(s.len() >= 2 && s[0] == '=' && s[1] == '>'),
        !is_fence(s),
    ensures
        parse_models(s) == seq![Line::Text(s)],
{
    lemma_split_lines_no_nl(s);
    assert(text_lines(s) == split_lines(s));
    let lines = text_lines(s);
    assert(prun(lines, 1) == pstep(prun(lines, 0), lines[0]));
    assert(line_model(s) == Line::Text(s));
    assert(parse_models(s) =~= seq![Line::Text(s)]);
}

/// Splits `s` at every newline character.
pub(crate) fn split_lines_exec(s: &str) -> (r: Vec<String>)
    ensures
        views_of(r@) == split_lines(s@),
{
    let n = s.unicode_len();
    let mut r: Vec<String> = Vec::new();
    let mut start: usize = 0;
    let mut i: usize = 0;
    proof {
        assert(s@.skip(0) =~= s@);
        assert(views_of(r@) =~= Seq::<Seq<char>>::empty());
    }
    while i < n
        invariant
            0 <= start <= i <= n,
            n == s@.len(),
            forall|k: int| start <= k < i ==> s@[k] != '\n',
            split_lines(s@) == views_of(r@) + split_lines(s@.skip(start as int)),
        decreases n - i,
    {
        if s.get_char(i) == '\n' {
            let ghost old_r = r@;
            r.push(String::from_str(s.substring_char(start, i)));
            proof {
                let tail = s@.skip(start as int);
                assert(forall|k: int| 0 <= k < i - start ==> tail[k] == s@[k + start]);
                assert(tail[i - start] == s@[i as int]);
                lemma_split_lines_first(tail, i - start);
                assert(tail.take(i - start) =~= s@.subrange(start as int, i as int));
                assert(tail.skip(i - start + 1) =~= s@.skip(i + 1));
                assert(views_of(r@) =~= views_of(old_r).push(s@.subrange(start as int, i as int)));
                assert(views_of(r@) + split_lines(s@.skip(i + 1)) =~= views_of(old_r) + (seq![
                    s@.subrange(start as int, i as int),
                ] + split_lines(s@.skip(i + 1))));
            }
            i += 1;
            start = i;
        } else {
            i += 1;
        }
    }
    let ghost old_r = r@;
    r.push(String::from_str(s.substring_char(start, n)));
    proof {
        let tail = s@.skip(start as int);
        assert(forall|k: int| 0 <= k < tail.len() ==> tail[k] == s@[k + start]);
        lemma_split_lines_no_nl(tail);
        assert(tail =~= s@.subrange(start as int, n as int));
        assert(views_of(r@) =~= views_of(old_r).push(tail));
        assert(views_of(r@) =~= views_of(old_r) + seq![tail]);
    }
    r
}

/// Classifies one line that stands outside a verbatim block and is no fence.
fn classify_line(line: &str) -> (r: GemLine)
    requires
        !is_fence(line@),
    ensures
        r@ == line_model(line@),
{
    let n = line.unicode_len();
    if n >= 3 && line.get_char(0) == '#' && line.get_char(1) == '#' && line.get_char(2) == '#' {
        GemLine::Heading(3, String::from_str(trim_start(line.substring_char(3, n))))
    } else if n >= 2 && line.get_char(0) == '#' && line.get_char(1) == '#' {
        GemLine::Heading(2, String::from_str(trim_start(line.substring_char(2, n))))
    } else if n >= 1 && line.get_char(0) == '#' {
        GemLine::Heading(1, String::from_str(trim_start(line.substring_char(1, n))))
    } else if n >= 2 && line.get_char(0) == '=' && line.get_char(1) == '>' {
        let rest = trim_start(line.substring_char(2, n));
        let rn = rest.unicode_len();
        let mut t: usize = 0;
        while t < rn
            invariant
                0 <= t <= rn,
                rn == rest@.len(),
                forall|k: int| 0 <= k < t ==> !is_space(rest@[k]),
            ensures
                0 <= t <= rn,
                t < rn ==> is_space(rest@[t as int]),
                forall|k: int| 0 <= k < t ==> !is_space(rest@[k]),
            decreases rn - t,
        {
            if is_space_char(rest.get_char(t)) {
                break ;
            }
            t += 1;
        }
        proof {
            lemma_token_len_bounds(rest@);
            let tl = token_len(rest@);
            if tl < t as int {
                assert(is_space(rest@[tl]));
            }
            if tl > t as int {
                assert(!is_space(rest@[t as int]));
            }
            assert(rest@.take(t as int) =~= rest@.subrange(0, t as int));
            assert(rest@.skip(t as int) =~= rest@.subrange(t as int, rn as int));
        }
        let target = String::from_str(rest.substring_char(0, t));
        let label = String::from_str(trim_start(rest.substring_char(t, rn)));
        GemLine::Link(target, label)
    } else {
        GemLine::Text(String::from_str(line))
    }
}

/// Does the line begin with the verbatim fence?
fn is_fence_line(line: &str) -> (r: bool)
    ensures
        r == is_fence(line@),
{
    let n = line.unicode_len();
    n >= 3 && line.get_char(0) == '`' && line.get_char(1) == '`' && line.get_char(2) == '`'
}

/// `s` with one trailing newline removed.
fn trim_one_nl_exec(s: String) -> (r: String)
    ensures
        r@ == trim_one_nl(s@),
{
    let n = s.as_str().unicode_len();
    if n > 0 && s.as_str().get_char(n - 1) == '\n' {
        let r = String::from_str(s.as_str().substring_char(0, n - 1));
        proof {
            assert(s@.subrange(0, n - 1) =~= s@.take(n - 1));
        }
        r
    } else {
        s
    }
}

/// The open verbatim block that the flag and buffers stand for.
pub open spec fn pf_model(in_pf: bool, alt: Seq<char>, text: Seq<char>) -> Option<PfState> {
    if in_pf {
        Some(PfState { alt, text })
    } else {
        None
    }
}

impl GemText {
    /// A document with no lines.
    pub fn empty() -> (r: GemText)
        ensures
            r@ == Seq::<(u64, Line)>::empty(),
            r.doc_lines() == Seq::<Line>::empty(),
    {
        let r = GemText(Vec::new());
        proof {
            assert(r@ =~= Seq::<(u64, Line)>::empty());
            assert(r.doc_lines() =~= Seq::<Line>::empty());
        }
        r
    }

    /// Parses `contents` as markup: the document's lines are exactly
    /// [`parse_models`] of the text, and their identifiers run consecutively
    /// up from the generator's next value.
    pub fn new(contents: &str, ids: &mut SequenceGenerator) -> (r: GemText)
        ensures
            r.doc_lines() == parse_models(contents@),
            r.ids_from(old(ids).next),
            final(ids).next == sat_id(old(ids).next, r@.len() as int),
            r@.len() == parse_models(contents@).len(),
    {
        let ghost base = ids.next;
        let lines = text_lines_exec(contents);
        let ghost lmodels = text_lines(contents@);
        let mut out: Vec<(u64, GemLine)> = Vec::new();
        let mut in_pf = false;
        let mut pf_alt = String::new();
        let mut pf_text = String::new();
        let mut j: usize = 0;
        proof {
            assert(out@.map_values(|p: (u64, GemLine)| p.1@) =~= Seq::<Line>::empty());
            assert(prun(lmodels, 0) == (Seq::<Line>::empty(), None::<PfState>));
        }
        while j < lines.len()
            invariant
                0 <= j <= lines.len(),
                views_of(lines@) == lmodels,
                prun(lmodels, j as int) == (
                    out@.map_values(|p: (u64, GemLine)| p.1@),
                    pf_model(in_pf, pf_alt@, pf_text@),
                ),
                ids.next == sat_id(base, out@.len() as int),
                forall|k: int| 0 <= k < out@.len() ==> (#[trigger] out@[k].0) == sat_id(base, k),
            decreases lines.len() - j,
        {
            let ghost old_out = out@;
            let line: &String = &lines[j];
            proof {
                assert(views_of(lines@)[j as int] == line@);
                assert(prun(lmodels, j + 1) == pstep(prun(lmodels, j as int), lmodels[j as int]));
            }
            if in_pf {
                if is_fence_line(line.as_str()) {
                    let alt = pf_alt;
                    let text = pf_text;
                    pf_alt = String::new();
                    pf_text = String::new();
                    in_pf = false;
                    let id = ids.fresh();
                    out.push((id, GemLine::Preformatted(alt, trim_one_nl_exec(text))));
                    proof {
                        assert(out@.map_values(|p: (u64, GemLine)| p.1@) =~= old_out.map_values(
                            |p: (u64, GemLine)| p.1@,
                        ).push(out@[out@.len() - 1].1@));
                        assert(ids.next == sat_id(base, out@.len() as int));
                    }
                } else {
                    pf_text.append(line.as_str());
                    pf_text.append("\n");
                    proof {
                        reveal_strlit("\n");
                        assert("\n"@ =~= seq!['\n']);
                    }
                }
            } else {
                if is_fence_line(line.as_str()) {
                    let n = line.as_str().unicode_len();
                    pf_alt = String::from_str(line.as_str().substring_char(3, n));
                    pf_text = String::new();
                    in_pf = true;
                    proof {
                        assert(line@.subrange(3, n as int) =~= line@.skip(3));
                    }
                } else {
                    let id = ids.fresh();
                    out.push((id, classify_line(line.as_str())));
                    proof {
                        assert(out@.map_values(|p: (u64, GemLine)| p.1@) =~= old_out.map_values(
                            |p: (u64, GemLine)| p.1@,
                        ).push(out@[out@.len() - 1].1@));
                        assert(ids.next == sat_id(base, out@.len() as int));
                    }
                }
            }
            j += 1;
        }
        if in_pf {
            let id = ids.fresh();
            let ghost old_out = out@;
            out.push((id, GemLine::Preformatted(pf_alt, trim_one_nl_exec(pf_text))));
            proof {
                assert(out@.map_values(|p: (u64, GemLine)| p.1@) =~= old_out.map_values(
                    |p: (u64, GemLine)| p.1@,
                ).push(out@[out@.len() - 1].1@));
                assert(ids.next == sat_id(base, out@.len() as int));
            }
        }
        let r = GemText(out);
        proof {
            assert(lmodels.len() == lines@.len());
            assert(r.doc_lines() == parse_models(contents@));
            assert(r@.len() == r.0@.len());
        }
        r
    }

    /// Wraps `contents` verbatim as a document of exactly one text line,
    /// with no markup interpretation.
    pub fn raw(contents: String, ids: &mut SequenceGenerator) -> (r: GemText)
        ensures
            r.doc_lines() == seq![Line::Text(contents@)],
            r.ids_from(old(ids).next),
            final(ids).next == sat_id(old(ids).next, 1),
            r@.len() == 1,
    {
        let id = ids.fresh();
        let mut v: Vec<(u64, GemLine)> = Vec::new();
        v.push((id, GemLine::Text(contents)));
        let r = GemText(v);
        proof {
            assert(r.doc_lines() =~= seq![r.0@[0].1@]);
        }
        r
    }
}

} // verus!
