//! Highlights drawn over the editor surface and the minimap: which character
//! ranges are highlighted (diagnostics merged per severity, selections), and
//! where each highlighted line starts and how wide it is, in columns, with
//! tabs expanded.

use vstd::prelude::*;

use crate::language_server::Severity;
use crate::search::{DocumentStamp, Matches, SearchKind, SyncDataDoc};
use crate::surface::{DespawnResource, EntityId};

verus! {

/// What a highlight shows.
#[derive(Clone, Copy, PartialEq, Eq, Debug, Structural)]
pub enum HighlightKind {
    Diagnostic,
    Search,
    Selection,
    SelectionSearch,
    Cursor,
}

/// The highlight kind of a search.
pub open spec fn highlight_of_search(kind: SearchKind) -> HighlightKind {
    match kind {
        SearchKind::Common => HighlightKind::Search,
        SearchKind::Selection => HighlightKind::SelectionSearch,
    }
}

impl HighlightKind {
    /// The highlight kind of a search.
    pub open spec fn from_search(kind: SearchKind) -> HighlightKind {
        highlight_of_search(kind)
    }

    /// The highlight of a search: the common search as `Search`, the
    /// selection search as `SelectionSearch`.
    pub fn from(kind: SearchKind) -> (r: HighlightKind)
        ensures
            r == match kind {
                SearchKind::Common => HighlightKind::Search,
                SearchKind::Selection => HighlightKind::SelectionSearch,
            },
    {
        match kind {
            SearchKind::Common => HighlightKind::Search,
            SearchKind::Selection => HighlightKind::SelectionSearch,
        }
    }
}

/// The columns a character takes at `col`: a tab reaches the next tab stop,
/// any other character takes one column.
pub open spec fn char_width(c: char, col: nat, tab: nat) -> nat {
    if c == '\t' { (tab - col % tab) as nat } else { 1 }
}

/// The columns the characters `chars` take, starting at column `col`.
pub open spec fn expanded_width(chars: Seq<char>, col: nat, tab: nat) -> nat
    decreases chars.len(),
{
    if chars.len() == 0 {
        0
    } else {
        let w = expanded_width(chars.drop_last(), col, tab);
        w + char_width(chars.last(), col + w, tab)
    }
}

/// Characters never take more columns than a tab.
pub proof fn lemma_expanded_width_bound(chars: Seq<char>, col: nat, tab: nat)
    requires
        tab > 0,
    ensures
        expanded_width(chars, col, tab) <= chars.len() * tab,
    decreases chars.len(),
{
    if chars.len() > 0 {
        lemma_expanded_width_bound(chars.drop_last(), col, tab);
        let w = expanded_width(chars.drop_last(), col, tab);
        assert(char_width(chars.last(), col + w, tab) <= tab) by (nonlinear_arith)
            requires tab > 0;
        let n = chars.len();
        assert((n - 1) * tab + tab == n * tab) by (nonlinear_arith);
    }
}

/// Tabs go to tab stops: appending a tab to characters laid out from column
/// `col` ends them on the next tab stop (a multiple of the tab width) after
/// where they ended, at least one and at most a tab width further; any other
/// character takes one column. So in "a\tb" with tabs of 4, the tab ends at
/// column 4 and 'b' stands there.
pub proof fn lemma_tab_reaches_next_stop(chars: Seq<char>, col: nat, tab: nat, c: char)
    requires
        tab > 0,
    ensures
        ({
            let before = col + expanded_width(chars, col, tab);
            let after = col + expanded_width(chars.push(c), col, tab);
            if c == '\t' {
                &&& after % tab == 0
                &&& before < after <= before + tab
            } else {
                after == before + 1
            }
        }),
{
    let s = chars.push(c);
    assert(s.drop_last() =~= chars);
    let w = expanded_width(chars, col, tab);
    let b = col + w;
    if c == '\t' {
        let bi: int = b as int;
        let t: int = tab as int;
        assert((bi + (t - bi % t)) % t == 0 && 0 <= bi % t < t) by (nonlinear_arith)
            requires t > 0, bi >= 0;
    }
}

/// Laying out characters in two parts is laying them out at once: the second
/// part starts at the column where the first part ends.
pub proof fn lemma_expanded_width_concat(a: Seq<char>, b: Seq<char>, col: nat, tab: nat)
    ensures
        expanded_width(a + b, col, tab) == expanded_width(a, col, tab) + expanded_width(b, col + expanded_width(a, col, tab), tab),
    decreases b.len(),
{
    if b.len() == 0 {
        assert(a + b =~= a);
    } else {
        assert((a + b).drop_last() =~= a + b.drop_last());
        assert((a + b).last() == b.last());
        lemma_expanded_width_concat(a, b.drop_last(), col, tab);
    }
}

/// A line's highlight starts at the column where its first highlighted
/// character stands once tabs are expanded, and ends at the column where the
/// last highlighted character (the one before `end_char`, or before the
/// line's last character) ends: it covers exactly the highlighted characters.
pub proof fn lemma_highlight_columns(chars: Seq<char>, line_start: nat, start_char: nat, end_char: nat, tab: nat)
    requires
        (if start_char > line_start { start_char } else { line_start }) <= line_start + chars.len(),
    ensures
        ({
            let (offset, len) = line_layout(chars, line_start, start_char, end_char, tab);
            let line_end = line_end_char(line_start, chars.len());
            let first = if start_char > line_start { start_char } else { line_start };
            let last = if end_char < line_end { end_char } else { line_end };
            &&& offset == expanded_width(chars.take(first - line_start), 0, tab)
            &&& first < last ==> offset + len == expanded_width(chars.take(last - line_start), 0, tab)
            &&& first >= last ==> len == 0
        }),
{
    let line_end = line_end_char(line_start, chars.len());
    let first = if start_char > line_start { start_char } else { line_start };
    let last = if end_char < line_end { end_char } else { line_end };
    assert(chars.subrange(0, first - line_start) =~= chars.take(first - line_start));
    if first < last {
        let a = chars.take(first - line_start);
        let b = chars.subrange(first - line_start, last - line_start);
        assert(a + b =~= chars.take(last - line_start));
        lemma_expanded_width_concat(a, b, 0, tab);
    }
}

/// The columns that `chars[from..to]` take, from column `col`; see `expanded_width`.
fn expanded_width_of(chars: &Vec<char>, from: usize, to: usize, col: usize, tab_len: usize) -> (w: usize)
    requires
        from <= to <= chars@.len(),
        tab_len > 0,
        col + chars@.len() * tab_len <= usize::MAX,
    ensures
        w == expanded_width(chars@.subrange(from as int, to as int), col as nat, tab_len as nat),
{
    let mut w: usize = 0;
    let mut i: usize = from;
    proof {
        assert(chars@.subrange(from as int, from as int) =~= Seq::<char>::empty());
    }
    while i < to
        invariant
            from <= i <= to <= chars@.len(),
            tab_len > 0,
            col + chars@.len() * tab_len <= usize::MAX,
            w == expanded_width(chars@.subrange(from as int, i as int), col as nat, tab_len as nat),
        decreases to - i,
    {
        proof {
            let prev = chars@.subrange(from as int, i as int);
            let next = chars@.subrange(from as int, i + 1);
            assert(next.drop_last() =~= prev);
            assert(next.last() == chars@[i as int]);
            lemma_expanded_width_bound(next, col as nat, tab_len as nat);
            assert(next.len() * tab_len <= chars@.len() * tab_len) by (nonlinear_arith)
                requires next.len() <= chars@.len();
        }
        if chars[i] == '\t' {
            w = w + (tab_len - ((col + w) % tab_len));
        } else {
            w = w + 1;
        }
        i = i + 1;
    }
    w
}

/// The last character of a line that starts at `line_start` and has `len` characters.
pub open spec fn line_end_char(line_start: nat, len: nat) -> nat {
    if len > 0 { (line_start + len - 1) as nat } else { line_start }
}

/// Where the highlight of the characters `start_char..end_char` starts on a
/// line (its chars `chars`, starting at character `line_start` of the
/// document), and how many columns it spans: the columns before the first
/// highlighted character, and those of the highlighted characters up to (not
/// including) the last character of the line or `end_char`.
pub open spec fn line_layout(chars: Seq<char>, line_start: nat, start_char: nat, end_char: nat, tab: nat) -> (nat, nat) {
    let line_end = line_end_char(line_start, chars.len());
    let inner_start = if start_char > line_start { start_char } else { line_start };
    let inner_end = if end_char < line_end { end_char } else { line_end };
    let offset = expanded_width(chars.subrange(0, inner_start - line_start), 0, tab);
    let len = if inner_start < inner_end {
        expanded_width(chars.subrange(inner_start - line_start, inner_end - line_start), offset, tab)
    } else {
        0
    };
    (offset, len)
}

/// A line of the document: its index, its first character in the document,
/// and its characters.
pub struct LineText {
    pub line: usize,
    pub start_char: usize,
    pub chars: Vec<char>,
}

/// A highlight on one line: its column (after the gutter) and width.
#[derive(Clone, Copy, PartialEq, Eq, Debug, Structural)]
pub struct LineHighlight {
    pub line: usize,
    pub offset: usize,
    pub len: usize,
}

/// The highlight on the editor surface: the layout of the line shifted left by
/// the horizontal scroll `h` and cut at the right to `max_line_len` columns
/// (the gutter included); none when nothing is left.
pub open spec fn surface_cut(offset: nat, len: nat, gutter: nat, max_line_len: nat, h: nat) -> Option<(nat, nat)> {
    let (o, l) = if h > offset {
        (0nat, if len > h - offset { (len - (h - offset)) as nat } else { 0nat })
    } else {
        ((offset - h) as nat, len)
    };
    let total = gutter + o + l;
    let l2 = if total > max_line_len { if l > total - max_line_len { (l - (total - max_line_len)) as nat } else { 0nat } } else { l };
    if l2 == 0 { None } else { Some((o, l2)) }
}

/// Cutting a highlight to the surface shows part of it and nothing else: the
/// columns shown, put back by the scroll `h`, lie within the highlight, and
/// with the gutter they fit in `max_line_len`; a highlight that is not
/// scrolled off on the left and fits is shown whole, and an empty one is not
/// shown.
pub proof fn lemma_surface_cut_shows_part(offset: nat, len: nat, gutter: nat, max_line_len: nat, h: nat)
    ensures
        surface_cut(offset, len, gutter, max_line_len, h) matches Some((o, l)) ==> {
            &&& l > 0
            &&& offset <= o + h
            &&& o + h + l <= offset + len
            &&& gutter + o + l <= max_line_len
            &&& h <= offset ==> o + h == offset
        },
        h <= offset && gutter + (offset - h) + len <= max_line_len && len > 0
            ==> surface_cut(offset, len, gutter, max_line_len, h) == Some(((offset - h) as nat, len)),
        len == 0 ==> surface_cut(offset, len, gutter, max_line_len, h) is None,
{
}

/// The highlight on the minimap: none when the line holds no highlighted
/// character; otherwise the layout cut at the right to `max_line_len` columns.
pub open spec fn minimap_cut(chars: Seq<char>, line_start: nat, start_char: nat, end_char: nat, offset: nat, len: nat,
    max_line_len: nat) -> Option<(nat, nat)>
{
    let line_end = line_end_char(line_start, chars.len());
    let inner_start = if start_char > line_start { start_char } else { line_start };
    let inner_end = if end_char < line_end { end_char } else { line_end };
    let total = offset + len;
    let l2 = if total > max_line_len { if len > total - max_line_len { (len - (total - max_line_len)) as nat } else { 0nat } } else { len };
    if inner_start >= inner_end || l2 == 0 { None } else { Some((offset, l2)) }
}

/// The inputs on which a line's layout is defined: a tab width, a start
/// within the line, and column counts that fit.
pub open spec fn layout_defined(line: LineText, start_char: nat, tab_len: nat, gutter_len: nat) -> bool {
    &&& tab_len > 0
    &&& line.start_char + line.chars@.len() <= usize::MAX
    &&& (if start_char > line.start_char { start_char } else { line.start_char as nat }) <= line.start_char + line.chars@.len()
    &&& gutter_len + 2 * line.chars@.len() * tab_len <= usize::MAX
}

fn layout(line: &LineText, start_char: usize, end_char: usize, tab_len: usize, gutter_len: usize) -> (r: (usize, usize))
    requires
        layout_defined(*line, start_char as nat, tab_len as nat, gutter_len as nat),
    ensures
        (r.0 as nat, r.1 as nat) == line_layout(line.chars@, line.start_char as nat, start_char as nat, end_char as nat,
            tab_len as nat),
        gutter_len + r.0 + r.1 <= usize::MAX,
{
    let n = line.chars.len();
    let line_start = line.start_char;
    let line_end = if n > 0 { line_start + n - 1 } else { line_start };
    let inner_start = if start_char > line_start { start_char } else { line_start };
    let inner_end = if end_char < line_end { end_char } else { line_end };
    proof {
        assert(n * tab_len <= 2 * n * tab_len) by (nonlinear_arith);
        lemma_expanded_width_bound(line.chars@.subrange(0, inner_start - line_start), 0, tab_len as nat);
        assert((inner_start - line_start) * tab_len <= n * tab_len) by (nonlinear_arith)
            requires inner_start - line_start <= n;
    }
    let offset = expanded_width_of(&line.chars, 0, inner_start - line_start, 0, tab_len);
    let len = if inner_start < inner_end {
        proof {
            let s = line.chars@.subrange(inner_start - line_start, inner_end - line_start);
            lemma_expanded_width_bound(s, offset as nat, tab_len as nat);
            assert(s.len() * tab_len <= n * tab_len) by (nonlinear_arith)
                requires s.len() <= n;
            assert(offset + n * tab_len <= 2 * n * tab_len) by (nonlinear_arith)
                requires offset <= n * tab_len;
        }
        expanded_width_of(&line.chars, inner_start - line_start, inner_end - line_start, offset, tab_len)
    } else {
        0
    };
    proof {
        if inner_start < inner_end {
            let s = line.chars@.subrange(inner_start - line_start, inner_end - line_start);
            lemma_expanded_width_bound(s, offset as nat, tab_len as nat);
            assert(s.len() * tab_len <= n * tab_len) by (nonlinear_arith)
                requires s.len() <= n;
        }
        assert(offset + len <= 2 * n * tab_len) by (nonlinear_arith)
            requires offset <= n * tab_len, len <= n * tab_len;
    }
    (offset, len)
}

/// The highlight of `start_char..end_char` on `line` of the editor surface;
/// see `surface_cut`.
pub fn surface_line_highlight(line: &LineText, start_char: usize, end_char: usize, tab_len: usize, gutter_len: usize,
    max_line_len: usize, horizontal_offset: usize) -> (r: Option<LineHighlight>)
    requires
        layout_defined(*line, start_char as nat, tab_len as nat, gutter_len as nat),
    ensures
        ({
            let (o, l) = line_layout(line.chars@, line.start_char as nat, start_char as nat, end_char as nat, tab_len as nat);
            match surface_cut(o, l, gutter_len as nat, max_line_len as nat, horizontal_offset as nat) {
                Some((o2, l2)) => r == Some(LineHighlight { line: line.line, offset: o2 as usize, len: l2 as usize }),
                None => r is None,
            }
        }),
{
    let (offset, len) = layout(line, start_char, end_char, tab_len, gutter_len);
    let mut offset_len = offset;
    let mut highlight_len = len;
    if horizontal_offset > offset_len {
        highlight_len = highlight_len.saturating_sub(horizontal_offset - offset_len);
        offset_len = 0;
    } else {
        offset_len = offset_len - horizontal_offset;
    }
    let total_len = gutter_len + offset_len + highlight_len;
    if total_len > max_line_len {
        highlight_len = highlight_len.saturating_sub(total_len - max_line_len);
    }
    if highlight_len == 0 {
        None
    } else {
        Some(LineHighlight { line: line.line, offset: offset_len, len: highlight_len })
    }
}

/// The highlight of `start_char..end_char` on `line` of the minimap; see
/// `minimap_cut`.
pub fn minimap_line_highlight(line: &LineText, start_char: usize, end_char: usize, tab_len: usize,
    max_line_len: usize) -> (r: Option<LineHighlight>)
    requires
        layout_defined(*line, start_char as nat, tab_len as nat, 0),
    ensures
        ({
            let (o, l) = line_layout(line.chars@, line.start_char as nat, start_char as nat, end_char as nat, tab_len as nat);
            match minimap_cut(line.chars@, line.start_char as nat, start_char as nat, end_char as nat, o, l, max_line_len as nat) {
                Some((o2, l2)) => r == Some(LineHighlight { line: line.line, offset: o2 as usize, len: l2 as usize }),
                None => r is None,
            }
        }),
{
    let n = line.chars.len();
    let line_start = line.start_char;
    let line_end = if n > 0 { line_start + n - 1 } else { line_start };
    let inner_start = if start_char > line_start { start_char } else { line_start };
    let inner_end = if end_char < line_end { end_char } else { line_end };
    if inner_start >= inner_end {
        return None;
    }
    let (offset_len, len) = layout(line, start_char, end_char, tab_len, 0);
    let mut highlight_len = len;
    let total_len = offset_len + highlight_len;
    if total_len > max_line_len {
        highlight_len = highlight_len.saturating_sub(total_len - max_line_len);
    }
    if highlight_len == 0 {
        None
    } else {
        Some(LineHighlight { line: line.line, offset: offset_len, len: highlight_len })
    }
}

/// The surface highlights of `start_char..end_char` on the lines `lines`
/// that it spans, in order; lines where nothing is left are left out.
pub open spec fn surface_highlights(lines: Seq<LineText>, start_char: nat, end_char: nat, tab: nat, gutter: nat,
    max_line_len: nat, h: nat) -> Seq<LineHighlight>
    decreases lines.len(),
{
    if lines.len() == 0 {
        Seq::empty()
    } else {
        let rest = surface_highlights(lines.drop_last(), start_char, end_char, tab, gutter, max_line_len, h);
        let line = lines.last();
        let (o, l) = line_layout(line.chars@, line.start_char as nat, start_char, end_char, tab);
        match surface_cut(o, l, gutter, max_line_len, h) {
            Some((o2, l2)) => rest.push(LineHighlight { line: line.line, offset: o2 as usize, len: l2 as usize }),
            None => rest,
        }
    }
}

/// The surface highlights of `start_char..end_char` on `lines`; see
/// `surface_highlights`.
pub fn surface_range_highlights(lines: &Vec<LineText>, start_char: usize, end_char: usize, tab_len: usize,
    gutter_len: usize, max_line_len: usize, horizontal_offset: usize) -> (r: Vec<LineHighlight>)
    requires
        forall|i: int| 0 <= i < lines@.len() ==> layout_defined(#[trigger] lines@[i], start_char as nat, tab_len as nat,
            gutter_len as nat),
    ensures
        r@ == surface_highlights(lines@, start_char as nat, end_char as nat, tab_len as nat, gutter_len as nat,
            max_line_len as nat, horizontal_offset as nat),
{
    let mut r: Vec<LineHighlight> = Vec::new();
    let mut i: usize = 0;
    while i < lines.len()
        invariant
            i <= lines@.len(),
            forall|k: int| 0 <= k < lines@.len() ==> layout_defined(#[trigger] lines@[k], start_char as nat, tab_len as nat,
                gutter_len as nat),
            r@ == surface_highlights(lines@.take(i as int), start_char as nat, end_char as nat, tab_len as nat,
                gutter_len as nat, max_line_len as nat, horizontal_offset as nat),
        decreases lines@.len() - i,
    {
        proof {
            assert(lines@.take(i + 1).drop_last() =~= lines@.take(i as int));
            assert(lines@.take(i + 1).last() == lines@[i as int]);
        }
        if let Some(h) = surface_line_highlight(&lines[i], start_char, end_char, tab_len, gutter_len, max_line_len,
            horizontal_offset) {
            r.push(h);
        }
        i = i + 1;
    }
    proof {
        assert(lines@.take(lines@.len() as int) =~= lines@);
    }
    r
}

/// Ranges merged in order: a range that starts no later than the end of the
/// previous one extends it (to the larger end); any other starts a new range.
pub open spec fn merged(ranges: Seq<(usize, usize)>) -> Seq<(usize, usize)>
    decreases ranges.len(),
{
    if ranges.len() == 0 {
        Seq::empty()
    } else {
        let rest = merged(ranges.drop_last());
        let (s, e) = ranges.last();
        if rest.len() > 0 && s <= rest.last().1 {
            let last = rest.last();
            rest.update(rest.len() - 1, (last.0, if e > last.1 { e } else { last.1 }))
        } else {
            rest.push((s, e))
        }
    }
}

/// The ranges of the diagnostics of severity `sev`, in order.
pub open spec fn ranges_of_severity(diagnostics: Seq<(Option<Severity>, usize, usize)>, sev: Severity) -> Seq<(usize, usize)>
    decreases diagnostics.len(),
{
    if diagnostics.len() == 0 {
        Seq::empty()
    } else {
        let rest = ranges_of_severity(diagnostics.drop_last(), sev);
        let d = diagnostics.last();
        if d.0 == Some(sev) { rest.push((d.1, d.2)) } else { rest }
    }
}

/// The merged diagnostic ranges of each severity.
pub struct SeverityRanges {
    pub info: Vec<(usize, usize)>,
    pub hint: Vec<(usize, usize)>,
    pub warning: Vec<(usize, usize)>,
    pub error: Vec<(usize, usize)>,
}

/// A diagnostic highlight to draw: over the characters of a range, in the
/// color of its severity; or over the whole line of a character.
#[derive(Clone, Copy, PartialEq, Eq, Debug, Structural)]
pub enum DiagnosticHighlight {
    Precise { severity: Severity, start: usize, end: usize },
    WholeLine { at: usize },
}

/// The highlights for the merged ranges of one severity, in order: each
/// range over its characters, and for errors also over its first line.
pub open spec fn severity_highlights(ranges: Seq<(usize, usize)>, severity: Severity) -> Seq<DiagnosticHighlight>
    decreases ranges.len(),
{
    if ranges.len() == 0 {
        Seq::empty()
    } else {
        let r = ranges.last();
        severity_highlights(ranges.drop_last(), severity) + seq![DiagnosticHighlight::Precise { severity, start: r.0, end: r.1 }]
            + if severity == Severity::Error { seq![DiagnosticHighlight::WholeLine { at: r.0 }] } else { Seq::empty() }
    }
}

/// The diagnostic highlights of a document: those of info, hint, warning and
/// error ranges, in that order.
pub open spec fn diagnostic_highlights(r: SeverityRanges) -> Seq<DiagnosticHighlight> {
    severity_highlights(r.info@, Severity::Info) + severity_highlights(r.hint@, Severity::Hint)
        + severity_highlights(r.warning@, Severity::Warning) + severity_highlights(r.error@, Severity::Error)
}

fn push_severity_highlights(out: &mut Vec<DiagnosticHighlight>, ranges: &Vec<(usize, usize)>, severity: Severity)
    ensures
        final(out)@ == old(out)@ + severity_highlights(ranges@, severity),
{
    let ghost start = out@;
    let mut i: usize = 0;
    while i < ranges.len()
        invariant
            i <= ranges@.len(),
            out@ == start + severity_highlights(ranges@.take(i as int), severity),
        decreases ranges@.len() - i,
    {
        proof {
            assert(ranges@.take(i + 1).drop_last() =~= ranges@.take(i as int));
            assert(ranges@.take(i + 1).last() == ranges@[i as int]);
        }
        let (s, e) = ranges[i];
        out.push(DiagnosticHighlight::Precise { severity, start: s, end: e });
        if severity == Severity::Error {
            out.push(DiagnosticHighlight::WholeLine { at: s });
        }
        i = i + 1;
        proof {
            assert(out@ =~= start + severity_highlights(ranges@.take(i as int), severity));
        }
    }
    proof {
        assert(ranges@.take(ranges@.len() as int) =~= ranges@);
    }
}

/// The diagnostic highlights to draw for the merged ranges `r`; see
/// `diagnostic_highlights`.
pub fn plan_diagnostic_highlights(r: &SeverityRanges) -> (plan: Vec<DiagnosticHighlight>)
    ensures
        plan@ == diagnostic_highlights(*r),
{
    let mut plan: Vec<DiagnosticHighlight> = Vec::new();
    push_severity_highlights(&mut plan, &r.info, Severity::Info);
    push_severity_highlights(&mut plan, &r.hint, Severity::Hint);
    push_severity_highlights(&mut plan, &r.warning, Severity::Warning);
    push_severity_highlights(&mut plan, &r.error, Severity::Error);
    proof {
        assert(plan@ =~= diagnostic_highlights(*r));
    }
    plan
}

proof fn lemma_severity_whole_lines(ranges: Seq<(usize, usize)>, severity: Severity, k: int)
    requires
        0 <= k < severity_highlights(ranges, severity).len(),
        severity_highlights(ranges, severity)[k] is WholeLine,
    ensures
        severity == Severity::Error,
        exists|i: int| 0 <= i < ranges.len() && (#[trigger] ranges[i]).0 == severity_highlights(ranges, severity)[k]->at,
    decreases ranges.len(),
{
    let rest = severity_highlights(ranges.drop_last(), severity);
    if k < rest.len() {
        lemma_severity_whole_lines(ranges.drop_last(), severity, k);
        let i = choose|i: int| 0 <= i < ranges.drop_last().len() && (#[trigger] ranges.drop_last()[i]).0 == rest[k]->at;
        assert(ranges[i] == ranges.drop_last()[i]);
    } else {
        assert(ranges[ranges.len() - 1] == ranges.last());
    }
}

/// Whole lines are highlighted for errors only: every whole-line highlight
/// is at the start of an error range.
pub proof fn lemma_whole_lines_only_for_errors(r: SeverityRanges, k: int)
    requires
        0 <= k < diagnostic_highlights(r).len(),
        diagnostic_highlights(r)[k] is WholeLine,
    ensures
        exists|i: int| 0 <= i < r.error@.len() && (#[trigger] r.error@[i]).0 == diagnostic_highlights(r)[k]->at,
{
    let a = severity_highlights(r.info@, Severity::Info);
    let b = severity_highlights(r.hint@, Severity::Hint);
    let c = severity_highlights(r.warning@, Severity::Warning);
    let d = severity_highlights(r.error@, Severity::Error);
    let all = diagnostic_highlights(r);
    assert(all == a + b + c + d);
    if k < a.len() {
        assert(all[k] == a[k]);
        lemma_severity_whole_lines(r.info@, Severity::Info, k);
    } else if k < a.len() + b.len() {
        assert(all[k] == b[k - a.len()]);
        lemma_severity_whole_lines(r.hint@, Severity::Hint, k - a.len());
    } else if k < a.len() + b.len() + c.len() {
        assert(all[k] == c[k - a.len() - b.len()]);
        lemma_severity_whole_lines(r.warning@, Severity::Warning, k - a.len() - b.len());
    } else {
        assert(all[k] == d[k - a.len() - b.len() - c.len()]);
        lemma_severity_whole_lines(r.error@, Severity::Error, k - a.len() - b.len() - c.len());
    }
}

/// Appends the range `(s, e)` to `ranges`, merging it with the last range
/// when it starts no later than that one ends.
fn merge_push(ranges: &mut Vec<(usize, usize)>, s: usize, e: usize, Ghost(items): Ghost<Seq<(usize, usize)>>)
    requires
        old(ranges)@ == merged(items),
    ensures
        final(ranges)@ == merged(items.push((s, e))),
{
    proof {
        assert(items.push((s, e)).drop_last() =~= items);
    }
    let n = ranges.len();
    if n > 0 && s <= ranges[n - 1].1 {
        let last = ranges[n - 1];
        let end = if e > last.1 { e } else { last.1 };
        ranges.set(n - 1, (last.0, end));
    } else {
        ranges.push((s, e));
    }
}

/// Diagnostics (severity, start, end) sorted into severities and merged
/// where they overlap; diagnostics without severity are left out.
pub fn merge_diagnostic_ranges(diagnostics: &Vec<(Option<Severity>, usize, usize)>) -> (r: SeverityRanges)
    ensures
        r.info@ == merged(ranges_of_severity(diagnostics@, Severity::Info)),
        r.hint@ == merged(ranges_of_severity(diagnostics@, Severity::Hint)),
        r.warning@ == merged(ranges_of_severity(diagnostics@, Severity::Warning)),
        r.error@ == merged(ranges_of_severity(diagnostics@, Severity::Error)),
{
    let mut r = SeverityRanges { info: Vec::new(), hint: Vec::new(), warning: Vec::new(), error: Vec::new() };
    let mut i: usize = 0;
    while i < diagnostics.len()
        invariant
            i <= diagnostics@.len(),
            r.info@ == merged(ranges_of_severity(diagnostics@.take(i as int), Severity::Info)),
            r.hint@ == merged(ranges_of_severity(diagnostics@.take(i as int), Severity::Hint)),
            r.warning@ == merged(ranges_of_severity(diagnostics@.take(i as int), Severity::Warning)),
            r.error@ == merged(ranges_of_severity(diagnostics@.take(i as int), Severity::Error)),
        decreases diagnostics@.len() - i,
    {
        let ghost pre = diagnostics@.take(i as int);
        proof {
            assert(diagnostics@.take(i + 1).drop_last() =~= pre);
            assert(diagnostics@.take(i + 1).last() == diagnostics@[i as int]);
        }
        let (severity, s, e) = diagnostics[i];
        match severity {
            Some(Severity::Info) => merge_push(&mut r.info, s, e, Ghost(ranges_of_severity(pre, Severity::Info))),
            Some(Severity::Hint) => merge_push(&mut r.hint, s, e, Ghost(ranges_of_severity(pre, Severity::Hint))),
            Some(Severity::Warning) => merge_push(&mut r.warning, s, e, Ghost(ranges_of_severity(pre, Severity::Warning))),
            Some(Severity::Error) => merge_push(&mut r.error, s, e, Ghost(ranges_of_severity(pre, Severity::Error))),
            None => {},
        }
        i = i + 1;
    }
    proof {
        assert(diagnostics@.take(diagnostics@.len() as int) =~= diagnostics@);
    }
    r
}

/// The end drawn for a diagnostic on the editor surface: a diagnostic of no
/// characters is drawn over one, when the document has it.
pub fn surface_diagnostic_end(start: usize, end: usize, doc_len_chars: usize) -> (r: usize)
    ensures
        r == if end == start && end < doc_len_chars { end + 1 } else { end as int },
{
    if end == start && end < doc_len_chars {
        end + 1
    } else {
        end
    }
}

/// The selected character ranges to highlight: each range (anchor, head)
/// from its start to its end, but cursors and ranges of one character.
pub open spec fn selection_ranges(ranges: Seq<(usize, usize)>) -> Seq<(usize, usize)>
    decreases ranges.len(),
{
    if ranges.len() == 0 {
        Seq::empty()
    } else {
        let rest = selection_ranges(ranges.drop_last());
        let (anchor, head) = ranges.last();
        let (s, e) = if head > anchor { (anchor, head) } else { (head, anchor) };
        if head == anchor || e - s == 1 { rest } else { rest.push((s, e)) }
    }
}

/// The selected character ranges to highlight; see `selection_ranges`.
pub fn selection_highlight_ranges(ranges: &Vec<(usize, usize)>) -> (r: Vec<(usize, usize)>)
    ensures
        r@ == selection_ranges(ranges@),
{
    let mut r: Vec<(usize, usize)> = Vec::new();
    let mut i: usize = 0;
    while i < ranges.len()
        invariant
            i <= ranges@.len(),
            r@ == selection_ranges(ranges@.take(i as int)),
        decreases ranges@.len() - i,
    {
        proof {
            assert(ranges@.take(i + 1).drop_last() =~= ranges@.take(i as int));
            assert(ranges@.take(i + 1).last() == ranges@[i as int]);
        }
        let (anchor, head) = ranges[i];
        if head != anchor {
            let (s, e) = if head > anchor { (anchor, head) } else { (head, anchor) };
            if e - s != 1 {
                r.push((s, e));
            }
        }
        i = i + 1;
    }
    proof {
        assert(ranges@.take(ranges@.len() as int) =~= ranges@);
    }
    r
}

/// The width in columns of a whole-line highlight: the surface width less
/// the gutter.
pub fn whole_line_len(area_width: u16, gutter_len: usize) -> (r: usize)
    requires
        gutter_len <= area_width,
    ensures
        r == area_width - gutter_len,
{
    area_width as usize - gutter_len
}

/// Merged ranges are in order and apart: each starts after the previous one
/// ends, when the ranges given start in order and each ends no earlier than
/// it starts.
pub proof fn lemma_merged_disjoint(ranges: Seq<(usize, usize)>)
    requires
        forall|i: int| 0 <= i < ranges.len() ==> (#[trigger] ranges[i]).0 <= ranges[i].1,
        forall|i: int, j: int| 0 <= i < j < ranges.len() ==> (#[trigger] ranges[i]).0 <= (#[trigger] ranges[j]).0,
    ensures
        forall|i: int| 0 <= i < merged(ranges).len() ==> (#[trigger] merged(ranges)[i]).0 <= merged(ranges)[i].1,
        forall|i: int, j: int| 0 <= i < j < merged(ranges).len() ==> (#[trigger] merged(ranges)[i]).1 < (#[trigger] merged(ranges)[j]).0,
        merged(ranges).len() > 0 ==> merged(ranges).last().0 <= ranges.last().0,
        merged(ranges).len() > 0 ==> merged(ranges)[0].0 == ranges[0].0,
    decreases ranges.len(),
{
    if ranges.len() > 0 {
        let prefix = ranges.drop_last();
        lemma_merged_disjoint(prefix);
        let rest = merged(prefix);
        if rest.len() > 0 {
            assert(rest.last().0 <= prefix.last().0);
            assert(prefix.last().0 <= ranges.last().0);
        }
    }
}

/// The highlights of one kind: what they were drawn for, and their entities.
pub struct Highlights<C> {
    pub cache: Option<C>,
    pub entities: Vec<EntityId>,
}

impl<C> Highlights<C> {
    /// No highlights, drawn for nothing yet.
    pub fn new() -> (h: Self)
        ensures
            h.cache is None,
            h.entities@.len() == 0,
    {
        Highlights { cache: None, entities: Vec::new() }
    }
}

/// The document state and diagnostics version that diagnostics highlights
/// were drawn for.
pub struct SyncDataDiagnostics {
    pub doc: SyncDataDoc,
    pub diagnostics_version: usize,
}

/// The highlights drawn over a surface, by kind; the cursor highlight
/// remembers the cursor position (row, column).
pub struct HighlightSets {
    pub diagnostics_highlights: Highlights<SyncDataDiagnostics>,
    pub selection_highlights: Highlights<SyncDataDoc>,
    pub search_highlights: Highlights<usize>,
    pub selection_search_highlights: Highlights<usize>,
    pub cursor_highlights: Highlights<(usize, usize)>,
}

/// The entities of the highlights of `kind`.
pub open spec fn entities_of(h: HighlightSets, kind: HighlightKind) -> Seq<EntityId> {
    match kind {
        HighlightKind::Diagnostic => h.diagnostics_highlights.entities@,
        HighlightKind::Search => h.search_highlights.entities@,
        HighlightKind::Selection => h.selection_highlights.entities@,
        HighlightKind::SelectionSearch => h.selection_search_highlights.entities@,
        HighlightKind::Cursor => h.cursor_highlights.entities@,
    }
}

/// The other search.
pub open spec fn other_search(kind: SearchKind) -> SearchKind {
    match kind {
        SearchKind::Common => SearchKind::Selection,
        SearchKind::Selection => SearchKind::Common,
    }
}

/// The version the highlights of a search were drawn for.
pub open spec fn search_cache(h: HighlightSets, kind: SearchKind) -> Option<usize> {
    match kind {
        SearchKind::Common => h.search_highlights.cache,
        SearchKind::Selection => h.selection_search_highlights.cache,
    }
}

/// `h2` is `h1` with the entities of `kind` replaced by `e`; the rest unchanged.
pub open spec fn with_entities(h1: HighlightSets, h2: HighlightSets, kind: HighlightKind, e: Seq<EntityId>) -> bool {
    &&& forall|k: HighlightKind| #[trigger] entities_of(h2, k) == if k == kind { e } else { entities_of(h1, k) }
    &&& h2.diagnostics_highlights.cache == h1.diagnostics_highlights.cache
    &&& h2.selection_highlights.cache == h1.selection_highlights.cache
    &&& h2.search_highlights.cache == h1.search_highlights.cache
    &&& h2.selection_search_highlights.cache == h1.selection_search_highlights.cache
    &&& h2.cursor_highlights.cache == h1.cursor_highlights.cache
}

/// Whether diagnostics highlights drawn for `cache` still show the document
/// `doc` with theme `theme`, horizontal scroll `h` and diagnostics version `dv`.
pub open spec fn diagnostics_current(cache: Option<SyncDataDiagnostics>, doc: DocumentStamp, theme: Seq<char>, h: usize,
    dv: usize) -> bool
{
    cache matches Some(c) && c.doc.id == doc.id && c.doc.theme@ == theme && c.doc.version == doc.version
        && (c.doc.horizontal_offset == Some(h) || c.doc.horizontal_offset is None) && c.diagnostics_version == dv
}

/// Whether selection highlights drawn for `cache` still show the selections
/// of version `sv` of document `doc_id` with theme `theme` and horizontal
/// scroll `h`.
pub open spec fn selection_current(cache: Option<SyncDataDoc>, doc_id: usize, theme: Seq<char>, sv: usize, h: usize) -> bool {
    cache matches Some(c) && c.id == doc_id && c.theme@ == theme && c.version == sv
        && (c.horizontal_offset == Some(h) || c.horizontal_offset is None)
}

impl HighlightSets {
    /// No highlights.
    pub fn new() -> (h: Self)
        ensures
            forall|k: HighlightKind| (#[trigger] entities_of(h, k)).len() == 0,
            h.diagnostics_highlights.cache is None,
            h.selection_highlights.cache is None,
            h.search_highlights.cache is None,
            h.selection_search_highlights.cache is None,
            h.cursor_highlights.cache is None,
    {
        HighlightSets {
            diagnostics_highlights: Highlights::new(),
            selection_highlights: Highlights::new(),
            search_highlights: Highlights::new(),
            selection_search_highlights: Highlights::new(),
            cursor_highlights: Highlights::new(),
        }
    }

    /// Queues the highlights of `kind` for despawning and forgets them.
    pub fn despawn_highlights(&mut self, kind: HighlightKind, despawn: &mut DespawnResource)
        ensures
            with_entities(*old(self), *final(self), kind, Seq::empty()),
            final(despawn).recursive@ == old(despawn).recursive@ + entities_of(*old(self), kind),
            final(despawn).children_only@ == old(despawn).children_only@,
    {
        let entities = match kind {
            HighlightKind::Diagnostic => &mut self.diagnostics_highlights.entities,
            HighlightKind::Search => &mut self.search_highlights.entities,
            HighlightKind::Selection => &mut self.selection_highlights.entities,
            HighlightKind::SelectionSearch => &mut self.selection_search_highlights.entities,
            HighlightKind::Cursor => &mut self.cursor_highlights.entities,
        };
        let mut taken: Vec<EntityId> = Vec::new();
        std::mem::swap(&mut taken, entities);
        despawn.recursive.append(&mut taken);
    }

    /// Records a highlight of `kind` spawned as `entity`.
    pub fn add_highlight(&mut self, kind: HighlightKind, entity: EntityId)
        ensures
            with_entities(*old(self), *final(self), kind, entities_of(*old(self), kind).push(entity)),
    {
        match kind {
            HighlightKind::Diagnostic => self.diagnostics_highlights.entities.push(entity),
            HighlightKind::Search => self.search_highlights.entities.push(entity),
            HighlightKind::Selection => self.selection_highlights.entities.push(entity),
            HighlightKind::SelectionSearch => self.selection_search_highlights.entities.push(entity),
            HighlightKind::Cursor => self.cursor_highlights.entities.push(entity),
        }
    }

    /// Whether the highlights of a search must be drawn again for `matches`:
    /// with no search they are despawned (and not drawn); drawn for another
    /// version, they are despawned, the new version is remembered, and the
    /// answer is yes; drawn for this version already, nothing happens.
    pub fn search_highlights_update(&mut self, kind: SearchKind, matches: &Matches, despawn: &mut DespawnResource)
        -> (redraw: bool)
        ensures
            redraw == (matches.cache is Some && search_cache(*old(self), kind) != Some(matches.version)),
            matches.cache is None ==> {
                &&& with_entities(*old(self), *final(self), HighlightKind::from_search(kind), Seq::empty())
                &&& final(despawn).recursive@ == old(despawn).recursive@ + entities_of(*old(self), HighlightKind::from_search(kind))
            },
            redraw ==> {
                &&& search_cache(*final(self), kind) == Some(matches.version)
                &&& search_cache(*final(self), other_search(kind)) == search_cache(*old(self), other_search(kind))
                &&& forall|k: HighlightKind| #[trigger] entities_of(*final(self), k)
                    == if k == HighlightKind::from_search(kind) { Seq::empty() } else { entities_of(*old(self), k) }
                &&& final(despawn).recursive@ == old(despawn).recursive@ + entities_of(*old(self), HighlightKind::from_search(kind))
            },
            !redraw && matches.cache is Some ==> {
                &&& final(despawn).recursive@ == old(despawn).recursive@
                &&& with_entities(*old(self), *final(self), HighlightKind::from_search(kind),
                    entities_of(*old(self), HighlightKind::from_search(kind)))
            },
            final(despawn).children_only@ == old(despawn).children_only@,
    {
        let highlight_kind = HighlightKind::from(kind);
        if matches.is_empty() {
            self.despawn_highlights(highlight_kind, despawn);
            return false;
        }
        let cached = match kind {
            SearchKind::Common => self.search_highlights.cache,
            SearchKind::Selection => self.selection_search_highlights.cache,
        };
        if let Some(version_cache) = cached {
            if version_cache == matches.version {
                return false;
            }
        }
        self.despawn_highlights(highlight_kind, despawn);
        let ghost mid = *self;
        match kind {
            SearchKind::Common => self.search_highlights.cache = Some(matches.version),
            SearchKind::Selection => self.selection_search_highlights.cache = Some(matches.version),
        }
        proof {
            assert forall|k: HighlightKind| #[trigger] entities_of(*self, k)
                == if k == HighlightKind::from_search(kind) { Seq::empty() } else { entities_of(*old(self), k) } by {
                assert(entities_of(*self, k) == entities_of(mid, k));
            }
        }
        true
    }

    /// Whether the diagnostics highlights must be drawn again for the
    /// document `doc` with theme `theme`, horizontal scroll `h` and
    /// diagnostics version `dv`: when they were drawn for anything else. Then
    /// the old ones are despawned and the new state is remembered.
    pub fn diagnostics_highlights_update(&mut self, doc: &DocumentStamp, theme: &str, h: usize, dv: usize,
        despawn: &mut DespawnResource) -> (redraw: bool)
        ensures
            redraw == !diagnostics_current(old(self).diagnostics_highlights.cache, *doc, theme@, h, dv),
            redraw ==> {
                &&& diagnostics_current(final(self).diagnostics_highlights.cache, *doc, theme@, h, dv)
                &&& entities_of(*final(self), HighlightKind::Diagnostic).len() == 0
                &&& final(despawn).recursive@ == old(despawn).recursive@ + entities_of(*old(self), HighlightKind::Diagnostic)
            },
            !redraw ==> final(despawn).recursive@ == old(despawn).recursive@
                && entities_of(*final(self), HighlightKind::Diagnostic) == entities_of(*old(self), HighlightKind::Diagnostic),
            final(despawn).children_only@ == old(despawn).children_only@,
    {
        let theme_string = theme.to_string();
        let current = match &self.diagnostics_highlights.cache {
            Some(cache) => cache.doc.id == doc.id && cache.doc.theme == theme_string && cache.doc.version == doc.version
                && (cache.doc.horizontal_offset == Some(h) || cache.doc.horizontal_offset.is_none())
                && cache.diagnostics_version == dv,
            None => false,
        };
        if current {
            return false;
        }
        self.despawn_highlights(HighlightKind::Diagnostic, despawn);
        proof {
            assert(entities_of(*self, HighlightKind::Diagnostic) == Seq::<EntityId>::empty());
        }
        self.diagnostics_highlights.cache = Some(SyncDataDiagnostics {
            doc: SyncDataDoc { id: doc.id, theme: theme_string, version: doc.version, horizontal_offset: Some(h) },
            diagnostics_version: dv,
        });
        true
    }

    /// Whether the selection highlights must be drawn again for selections of
    /// version `sv` of document `doc_id` with theme `theme` and horizontal
    /// scroll `h`; see `diagnostics_highlights_update`.
    pub fn selection_highlights_update(&mut self, doc_id: usize, theme: &str, sv: usize, h: usize,
        despawn: &mut DespawnResource) -> (redraw: bool)
        ensures
            redraw == !selection_current(old(self).selection_highlights.cache, doc_id, theme@, sv, h),
            redraw ==> {
                &&& selection_current(final(self).selection_highlights.cache, doc_id, theme@, sv, h)
                &&& entities_of(*final(self), HighlightKind::Selection).len() == 0
                &&& final(despawn).recursive@ == old(despawn).recursive@ + entities_of(*old(self), HighlightKind::Selection)
            },
            !redraw ==> final(despawn).recursive@ == old(despawn).recursive@
                && entities_of(*final(self), HighlightKind::Selection) == entities_of(*old(self), HighlightKind::Selection),
            final(despawn).children_only@ == old(despawn).children_only@,
    {
        let theme_string = theme.to_string();
        let current = match &self.selection_highlights.cache {
            Some(cache) => cache.id == doc_id && cache.theme == theme_string && cache.version == sv
                && (cache.horizontal_offset == Some(h) || cache.horizontal_offset.is_none()),
            None => false,
        };
        if current {
            return false;
        }
        self.despawn_highlights(HighlightKind::Selection, despawn);
        proof {
            assert(entities_of(*self, HighlightKind::Selection) == Seq::<EntityId>::empty());
        }
        self.selection_highlights.cache = Some(SyncDataDoc { id: doc_id, theme: theme_string, version: sv, horizontal_offset: Some(h) });
        true
    }
}

/// Search highlights are drawn once per version of the matches: after they
/// were drawn for the matches `m` (which leaves `m.version` remembered), the
/// same matches draw nothing, and matches of any other version draw again.
pub proof fn lemma_search_highlights_once_per_version(h: HighlightSets, kind: SearchKind, m: Matches, m2: Matches)
    requires
        search_cache(h, kind) == Some(m.version),
        m2.cache is Some,
    ensures
        !(m.cache is Some && search_cache(h, kind) != Some(m.version)),
        (m2.cache is Some && search_cache(h, kind) != Some(m2.version)) <==> m2.version != m.version,
{
}

} // verus!
