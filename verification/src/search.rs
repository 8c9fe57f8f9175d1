//! Search highlighting: the matches of the active search pattern, and of the
//! selected text, in the current document, kept with the document state they
//! were found for and a version that changes with every change of them.

use vstd::prelude::*;
use vstd::string::StringSliceAdditionalSpecFns;

use core::ops::Range;

use regex::{Error as RegexError, Regex, RegexBuilder};

use crate::surface::text::is_ascii_punctuation;

verus! {

#[verifier::external_type_specification]
#[verifier::external_body]
pub struct ExRegex(Regex);

#[verifier::external_type_specification]
#[verifier::external_body]
pub struct ExRegexError(RegexError);

/// A range of characters of the document.
pub type MatchRange = Range<usize>;

/// Which search a set of matches belongs to.
#[derive(Clone, Copy, PartialEq, Eq, Debug, Structural)]
pub enum SearchKind {
    Common,
    Selection,
}

/// What the search logic reads of a document: its id and its version.
#[derive(Clone, Copy, PartialEq, Eq, Debug, Structural)]
pub struct DocumentStamp {
    pub id: usize,
    pub version: usize,
}

/// The document state that something was computed for.
pub struct SyncDataDoc {
    pub id: usize,
    pub theme: String,
    pub version: usize,
    pub horizontal_offset: Option<usize>,
}

/// A string computed for a document state.
pub struct SyncDataString {
    pub doc: SyncDataDoc,
    pub string: String,
}

/// Whether `regex` accepts `pattern` (case-insensitive or not, not
/// multi-line) as a regular expression within its default size limits.
pub uninterp spec fn regex_builds(pattern: Seq<char>, case_insensitive: bool) -> bool;

/// The byte ranges of the successive non-overlapping leftmost-first matches
/// of `pattern` (built as in `regex_builds`) in `text`.
pub uninterp spec fn regex_match_ranges(pattern: Seq<char>, case_insensitive: bool, text: Seq<char>) -> Seq<(usize, usize)>;

/// Whether `char::is_uppercase` holds of `c` (the Unicode property Uppercase).
pub uninterp spec fn char_is_uppercase(c: char) -> bool;

/// Whether `c` has the Unicode White_Space property: tab, line feed,
/// vertical tab, form feed, carriage return, space, next line, no-break
/// space, ogham space mark, the spaces from en quad to hair space, line and
/// paragraph separators, narrow no-break space, medium mathematical space
/// and ideographic space.
pub open spec fn char_is_whitespace(c: char) -> bool {
    let u = c as u32;
    ||| 0x09 <= u <= 0x0D
    ||| u == 0x20
    ||| u == 0x85
    ||| u == 0xA0
    ||| u == 0x1680
    ||| 0x2000 <= u <= 0x200A
    ||| u == 0x2028
    ||| u == 0x2029
    ||| u == 0x202F
    ||| u == 0x205F
    ||| u == 0x3000
}

/// `str::to_lowercase` of `s`: each character mapped to its Unicode lowercase.
pub uninterp spec fn lowercase(s: Seq<char>) -> Seq<char>;

/// A regular expression built by `SearchRegex::build`, with the pattern and
/// case mode it was built from.
pub struct SearchRegex {
    regex: Regex,
    pattern: Ghost<Seq<char>>,
    case_insensitive: Ghost<bool>,
}

/// `RegexBuilder::new(pattern).case_insensitive(..).multi_line(false).build()`,
/// kept on success with the pattern and case mode it was built from.
/// Claimed: it succeeds exactly when `regex_builds(pattern@, case_insensitive)`,
/// a function of the pattern and the case mode alone. This is the only place
/// a `SearchRegex` is built, so its pattern and case mode are always those
/// its expression was built from.
#[verifier::external_body]
fn build_regex(pattern: &str, case_insensitive: bool) -> (r: Result<SearchRegex, RegexError>)
    ensures
        r is Ok <==> regex_builds(pattern@, case_insensitive),
        r matches Ok(re) ==> re.pattern() == pattern@ && re.case_insensitive() == case_insensitive,
{
    let p: Ghost<Seq<char>> = Ghost(pattern@);
    let ci: Ghost<bool> = Ghost(case_insensitive);
    match RegexBuilder::new(pattern).case_insensitive(case_insensitive).multi_line(false).build() {
        Ok(regex) => Ok(SearchRegex { regex, pattern: p, case_insensitive: ci }),
        Err(e) => Err(e),
    }
}

/// `Regex::find_iter` on `text`, each match taken by its byte range. Claimed:
/// the ranges are `regex_match_ranges` of the pattern, case mode and text
/// the expression was built from (which `build_regex`, the only place a
/// `SearchRegex` is built, records);
/// as the crate documents, each starts no later than it ends, both ends fall
/// on character boundaries of the text, and each match starts no earlier than
/// the previous one ends.
#[verifier::external_body]
fn find_match_ranges(re: &SearchRegex, text: &str) -> (r: Vec<Range<usize>>)
    ensures
        r@.len() == regex_match_ranges(re.pattern@, re.case_insensitive@, text@).len(),
        forall|i: int| 0 <= i < r@.len() ==> (#[trigger] r@[i]).start == regex_match_ranges(re.pattern@,
            re.case_insensitive@, text@)[i].0 && r@[i].end == regex_match_ranges(re.pattern@, re.case_insensitive@,
            text@)[i].1,
        forall|i: int| 0 <= i < r@.len() ==> (#[trigger] r@[i]).start <= r@[i].end <= text.spec_bytes().len(),
        forall|i: int| 0 <= i < r@.len() ==> vstd::utf8::is_char_boundary(text.spec_bytes(), (#[trigger] r@[i]).start as int)
            && vstd::utf8::is_char_boundary(text.spec_bytes(), r@[i].end as int),
        forall|i: int, j: int| 0 <= i < j < r@.len() ==> (#[trigger] r@[i]).end <= (#[trigger] r@[j]).start,
{
    re.regex.find_iter(text).map(|m| m.range()).collect()
}

/// `char::is_uppercase`. Its result is named `char_is_uppercase`.
#[verifier::external_body]
fn is_uppercase_char(c: char) -> (r: bool)
    ensures
        r == char_is_uppercase(c),
{
    c.is_uppercase()
}

/// Whether the character has the Unicode White_Space property (what
/// `char::is_whitespace` tells), as `char_is_whitespace` lists it.
fn is_whitespace_char(c: char) -> (r: bool)
    ensures
        r == char_is_whitespace(c),
{
    let u = c as u32;
    (0x09 <= u && u <= 0x0D) || u == 0x20 || u == 0x85 || u == 0xA0 || u == 0x1680 || (0x2000 <= u && u <= 0x200A)
        || u == 0x2028 || u == 0x2029 || u == 0x202F || u == 0x205F || u == 0x3000
}

/// `str::to_lowercase`. Its result is named `lowercase`.
#[verifier::external_body]
fn to_lowercase_string(s: &str) -> (r: String)
    ensures
        r@ == lowercase(s@),
{
    s.to_lowercase()
}

impl SearchRegex {
    /// The pattern the expression was built from.
    pub closed spec fn pattern(&self) -> Seq<char> {
        self.pattern@
    }

    /// Whether the expression ignores case.
    pub closed spec fn case_insensitive(&self) -> bool {
        self.case_insensitive@
    }

    /// Builds `pattern` (not multi-line); `None` when the regex crate refuses it.
    pub fn build(pattern: &str, case_insensitive: bool) -> (r: Option<SearchRegex>)
        ensures
            r is Some <==> regex_builds(pattern@, case_insensitive),
            r matches Some(re) ==> re.pattern() == pattern@ && re.case_insensitive() == case_insensitive,
    {
        match build_regex(pattern, case_insensitive) {
            Ok(re) => Some(re),
            Err(_) => None,
        }
    }

    /// The byte ranges of the matches in `text`; see `find_match_ranges`.
    pub fn match_ranges(&self, text: &str) -> (r: Vec<Range<usize>>)
        ensures
            r@.len() == regex_match_ranges(self.pattern(), self.case_insensitive(), text@).len(),
            forall|i: int| 0 <= i < r@.len() ==> (#[trigger] r@[i]).start == regex_match_ranges(self.pattern(),
                self.case_insensitive(), text@)[i].0 && r@[i].end == regex_match_ranges(self.pattern(),
                self.case_insensitive(), text@)[i].1,
            forall|i: int| 0 <= i < r@.len() ==> (#[trigger] r@[i]).start <= r@[i].end <= text.spec_bytes().len(),
            forall|i: int, j: int| 0 <= i < j < r@.len() ==> (#[trigger] r@[i]).end <= (#[trigger] r@[j]).start,
    {
        find_match_ranges(self, text)
    }
}

/// The pattern with every ASCII punctuation character wrapped in `[` `]`, so
/// that it matches literally.
pub open spec fn escaped(p: Seq<char>) -> Seq<char>
    decreases p.len(),
{
    if p.len() == 0 {
        Seq::empty()
    } else {
        let c = p.last();
        escaped(p.drop_last()) + if is_ascii_punctuation(c) { seq!['[', c, ']'] } else { seq![c] }
    }
}

/// Escaping works character by character: the escape of a concatenation is
/// the concatenation of the escapes.
pub proof fn lemma_escape_concat(a: Seq<char>, b: Seq<char>)
    ensures
        escaped(a + b) == escaped(a) + escaped(b),
    decreases b.len(),
{
    if b.len() == 0 {
        assert(a + b =~= a);
        assert(escaped(a) + escaped(b) =~= escaped(a));
    } else {
        let c = b.last();
        assert((a + b).drop_last() =~= a + b.drop_last());
        assert((a + b).last() == c);
        lemma_escape_concat(a, b.drop_last());
        let tail = if is_ascii_punctuation(c) { seq!['[', c, ']'] } else { seq![c] };
        assert(escaped(a) + escaped(b.drop_last()) + tail =~= escaped(a) + (escaped(b.drop_last()) + tail));
    }
}

/// A single character escapes to itself wrapped in `[` `]` exactly when it is
/// ASCII punctuation (`!`..`/`, `:`..`@`, `[`..`` ` ``, `{`..`~`), and to itself
/// otherwise; so every such character of a pattern, `|`, `{` and `}` among
/// them, is matched literally.
pub proof fn lemma_escape_char(c: char)
    ensures
        escaped(seq![c]) == if ('!' <= c <= '/') || (':' <= c <= '@') || ('[' <= c <= '`') || ('{' <= c <= '~') {
            seq!['[', c, ']']
        } else {
            seq![c]
        },
{
    assert(seq![c].drop_last() =~= Seq::<char>::empty());
    assert(escaped(Seq::<char>::empty()) + seq!['[', c, ']'] =~= seq!['[', c, ']']);
    assert(escaped(Seq::<char>::empty()) + seq![c] =~= seq![c]);
}

/// Whether `p` has an uppercase character.
pub open spec fn has_uppercase(p: Seq<char>) -> bool {
    exists|i: int| 0 <= i < p.len() && char_is_uppercase(#[trigger] p[i])
}

/// The number of characters that start in the first `b` bytes of `bytes`.
pub open spec fn char_index(bytes: Seq<u8>, b: int) -> nat
    decreases b,
{
    if b <= 0 {
        0
    } else if vstd::utf8::is_continuation_byte(bytes[b - 1]) {
        char_index(bytes, b - 1)
    } else {
        char_index(bytes, b - 1) + 1
    }
}

/// Counting the characters of a longer prefix gives no fewer.
pub proof fn lemma_char_index_monotonic(bytes: Seq<u8>, a: int, b: int)
    requires
        a <= b,
    ensures
        char_index(bytes, a) <= char_index(bytes, b),
    decreases b - a,
{
    if a < b {
        lemma_char_index_monotonic(bytes, a, b - 1);
    }
}

/// Ranges in order that do not overlap.
pub open spec fn ordered_ranges(r: Seq<(int, int)>) -> bool {
    &&& forall|i: int| 0 <= i < r.len() ==> (#[trigger] r[i]).0 <= r[i].1
    &&& forall|i: int, j: int| 0 <= i < j < r.len() ==> (#[trigger] r[i]).1 <= (#[trigger] r[j]).0
}

/// The character ranges of the byte ranges `ranges` in a text of `bytes`,
/// leaving out those that end at the first character.
pub open spec fn char_ranges(bytes: Seq<u8>, ranges: Seq<(usize, usize)>) -> Seq<(int, int)>
    decreases ranges.len(),
{
    if ranges.len() == 0 {
        Seq::empty()
    } else {
        let rest = char_ranges(bytes, ranges.drop_last());
        let r = ranges.last();
        if char_index(bytes, r.1 as int) == 0 {
            rest
        } else {
            rest.push((char_index(bytes, r.0 as int) as int, char_index(bytes, r.1 as int) as int))
        }
    }
}

/// The matches of a search for `pattern` in a document of `text`: nothing
/// for a pattern under two bytes or one the regex crate refuses; otherwise the
/// character ranges of the literal matches of the pattern, ignoring case when
/// asked, or with smart case when the pattern has an uppercase character.
pub open spec fn search_matches(pattern: Seq<char>, text: Seq<char>, smart_case: bool, ignore_case: bool) -> Seq<(int, int)> {
    let case_insensitive = ignore_case || (smart_case && has_uppercase(pattern));
    if vstd::utf8::encode_utf8(pattern).len() < 2 || !regex_builds(escaped(pattern), case_insensitive) {
        Seq::empty()
    } else {
        char_ranges(vstd::utf8::encode_utf8(text), regex_match_ranges(escaped(pattern), case_insensitive, text))
    }
}

/// The view of a range as a pair.
pub open spec fn range_pair(r: MatchRange) -> (int, int) {
    (r.start as int, r.end as int)
}

/// The number of characters that start in the first `b` bytes of `bytes`.
pub fn byte_to_char(bytes: &[u8], b: usize) -> (r: usize)
    requires
        b <= bytes@.len(),
    ensures
        r == char_index(bytes@, b as int),
        r <= b,
{
    let mut count: usize = 0;
    let mut i: usize = 0;
    while i < b
        invariant
            i <= b <= bytes@.len(),
            count == char_index(bytes@, i as int),
            count <= i,
        decreases b - i,
    {
        let byte = bytes[i];
        if !(0x80 <= byte && byte <= 0xbf) {
            count = count + 1;
        }
        i = i + 1;
    }
    count
}

/// The pattern with every ASCII punctuation character wrapped in `[` `]`.
pub fn escape_pattern(pattern: &str) -> (r: String)
    ensures
        r@ == escaped(pattern@),
{
    let mut pattern_modified = String::new();
    let n = pattern.unicode_len();
    let mut i: usize = 0;
    while i < n
        invariant
            n == pattern@.len(),
            i <= n,
            pattern_modified@ == escaped(pattern@.take(i as int)),
        decreases n - i,
    {
        let c = pattern.get_char(i);
        let is_punctuation = crate::surface::text::is_ascii_punctuation_char(c);
        if is_punctuation {
            crate::strings::push_char(&mut pattern_modified, '[');
        }
        crate::strings::push_char(&mut pattern_modified, c);
        if is_punctuation {
            crate::strings::push_char(&mut pattern_modified, ']');
        }
        proof {
            let prev = pattern@.take(i as int);
            let next = pattern@.take(i + 1);
            assert(next.drop_last() =~= prev);
            assert(next.last() == c);
            if is_punctuation {
                assert(escaped(next) =~= escaped(prev) + seq!['[', c, ']']);
            } else {
                assert(escaped(next) =~= escaped(prev) + seq![c]);
            }
        }
        i = i + 1;
    }
    proof {
        assert(pattern@.take(n as int) =~= pattern@);
    }
    pattern_modified
}

/// Whether `pattern` has an uppercase character.
pub fn has_uppercase_char(pattern: &str) -> (r: bool)
    ensures
        r == has_uppercase(pattern@),
{
    let n = pattern.unicode_len();
    let mut i: usize = 0;
    while i < n
        invariant
            n == pattern@.len(),
            i <= n,
            forall|j: int| 0 <= j < i ==> !char_is_uppercase(#[trigger] pattern@[j]),
        decreases n - i,
    {
        if is_uppercase_char(pattern.get_char(i)) {
            return true;
        }
        i = i + 1;
    }
    false
}

/// The character ranges of the matches of `re` in `text`, leaving out
/// matches that end at the first character.
pub fn char_match_ranges(re: &SearchRegex, text: &str) -> (r: Vec<MatchRange>)
    ensures
        r@.map_values(|m: MatchRange| range_pair(m)) == char_ranges(text.spec_bytes(),
            regex_match_ranges(re.pattern(), re.case_insensitive(), text@)),
        ordered_ranges(r@.map_values(|m: MatchRange| range_pair(m))),
{
    let ranges = re.match_ranges(text);
    let bytes = text.as_bytes();
    let ghost spec_ranges = regex_match_ranges(re.pattern(), re.case_insensitive(), text@);
    let mut matches: Vec<MatchRange> = Vec::new();
    let mut i: usize = 0;
    while i < ranges.len()
        invariant
            i <= ranges@.len(),
            bytes@ == text.spec_bytes(),
            ranges@.len() == spec_ranges.len(),
            forall|k: int| 0 <= k < ranges@.len() ==> (#[trigger] ranges@[k]).start == spec_ranges[k].0
                && ranges@[k].end == spec_ranges[k].1,
            forall|k: int| 0 <= k < ranges@.len() ==> (#[trigger] ranges@[k]).start <= ranges@[k].end <= bytes@.len(),
            matches@.map_values(|m: MatchRange| range_pair(m)) == char_ranges(bytes@, spec_ranges.take(i as int)),
            ordered_ranges(matches@.map_values(|m: MatchRange| range_pair(m))),
            forall|k: int| 0 <= k < matches@.len() ==> (#[trigger] matches@[k]).end <= (if i == 0 { 0 } else {
                char_index(bytes@, ranges@[i - 1].end as int) }),
            forall|k: int, l: int| 0 <= k < l < ranges@.len() ==> (#[trigger] ranges@[k]).end <= (#[trigger] ranges@[l]).start,
        decreases ranges@.len() - i,
    {
        let match_start = ranges[i].start;
        let match_end = ranges[i].end;
        proof {
            assert(spec_ranges.take(i + 1).drop_last() =~= spec_ranges.take(i as int));
            assert(spec_ranges.take(i + 1).last() == spec_ranges[i as int]);
        }
        let start_char = byte_to_char(bytes, match_start);
        let end_char = byte_to_char(bytes, match_end);
        proof {
            lemma_char_index_monotonic(bytes@, match_start as int, match_end as int);
            if i > 0 {
                lemma_char_index_monotonic(bytes@, ranges@[i - 1].end as int, match_start as int);
            }
        }
        let ghost before = matches@;
        if end_char != 0 {
            matches.push(start_char..end_char);
            proof {
                assert(matches@.map_values(|m: MatchRange| range_pair(m)) =~= before.map_values(|m: MatchRange| range_pair(m))
                    .push((start_char as int, end_char as int)));
            }
        }
        i = i + 1;
    }
    proof {
        assert(spec_ranges.take(ranges@.len() as int) =~= spec_ranges);
    }
    matches
}

/// Whether `synced` was computed for another document, version or theme.
pub open spec fn doc_outdated(synced: SyncDataDoc, doc: DocumentStamp, theme: Seq<char>) -> bool {
    synced.id != doc.id || synced.version != doc.version || synced.theme@ != theme
}

impl SyncDataDoc {
    /// Whether this was computed for another document, version or theme.
    pub fn outdated(&self, doc: &DocumentStamp, theme: &str) -> (r: bool)
        ensures
            r == doc_outdated(*self, *doc, theme@),
    {
        let theme = theme.to_string();
        self.id != doc.id || self.version != doc.version || !(self.theme == theme)
    }
}

/// Whether matches `m` must be found anew for `pattern` in document state
/// `doc` with `theme`: there are none, or they were found for another
/// pattern or document state.
pub open spec fn update_needed(m: Matches, pattern: Seq<char>, doc: DocumentStamp, theme: Seq<char>) -> bool {
    match m.cache {
        Some(c) => c.string@ != pattern || doc_outdated(c.doc, doc, theme),
        None => true,
    }
}

/// The matches of one search: the pattern and document state they were
/// found for (none when there is no search), the character ranges, and a
/// version that grows with every change.
pub struct Matches {
    pub cache: Option<SyncDataString>,
    pub vec: Vec<MatchRange>,
    pub version: usize,
}

/// The character ranges of `v` as pairs.
pub open spec fn ranges_of(v: Seq<MatchRange>) -> Seq<(int, int)> {
    v.map_values(|m: MatchRange| range_pair(m))
}

/// The version after clearing: one more when there was a search.
pub open spec fn cleared_version(m: Matches) -> usize {
    if m.cache is Some { (m.version + 1) as usize } else { m.version }
}

impl Default for Matches {
    fn default() -> (m: Self)
        ensures
            m.cache is None,
            m.vec@.len() == 0,
            m.version == 0,
    {
        Matches { cache: None, vec: Vec::new(), version: 0 }
    }
}

impl Matches {
    /// The versions can still grow.
    pub open spec fn can_change(self) -> bool {
        self.version < usize::MAX
    }

    /// Whether there is no search.
    pub fn is_empty(&self) -> (r: bool)
        ensures
            r == self.cache is None,
    {
        self.cache.is_none()
    }

    /// Forgets the search and its matches; the version grows when there was one.
    pub fn clear(&mut self)
        requires
            old(self).cache is Some ==> old(self).can_change(),
        ensures
            final(self).cache is None,
            final(self).vec@.len() == 0,
            final(self).version == cleared_version(*old(self)),
    {
        if self.cache.is_some() {
            self.version = self.version + 1;
        }
        self.cache = None;
        self.vec.clear();
    }

    /// The character ranges where `pattern` occurs in `text`; see `search_matches`.
    pub fn find(pattern: &str, text: &str, smart_case: bool, ignore_case: bool) -> (r: Vec<MatchRange>)
        ensures
            ranges_of(r@) == search_matches(pattern@, text@, smart_case, ignore_case),
            ordered_ranges(ranges_of(r@)),
    {
        if pattern.as_bytes().len() < 2 {
            let r: Vec<MatchRange> = Vec::new();
            proof {
                assert(ranges_of(r@) =~= Seq::<(int, int)>::empty());
            }
            return r;
        }
        let case_insensitive = ignore_case || (smart_case && has_uppercase_char(pattern));
        let pattern_modified = escape_pattern(pattern);
        match SearchRegex::build(pattern_modified.as_str(), case_insensitive) {
            Some(regex) => char_match_ranges(&regex, text),
            None => {
                let r: Vec<MatchRange> = Vec::new();
                proof {
                    assert(ranges_of(r@) =~= Seq::<(int, int)>::empty());
                }
                r
            },
        }
    }

    /// Whether the matches were not found for this document state.
    pub fn cache_outdated(&self, doc: &DocumentStamp, theme: &str) -> (r: bool)
        ensures
            r == match self.cache {
                Some(c) => doc_outdated(c.doc, *doc, theme@),
                None => true,
            },
    {
        match &self.cache {
            Some(cache) => cache.doc.outdated(doc, theme),
            None => true,
        }
    }

    /// Whether the matches must be found anew for `new_pattern` in this
    /// document state.
    pub fn update_required(&self, new_pattern: &String, doc: &DocumentStamp, theme: &str) -> (r: bool)
        ensures
            r == update_needed(*self, new_pattern@, *doc, theme@),
    {
        match &self.cache {
            Some(cache) => !(cache.string == *new_pattern) || cache.doc.outdated(doc, theme),
            None => true,
        }
    }

    /// Finds the matches of `pattern` in the document `doc` of text `text`
    /// and theme `theme`, and remembers what they were found for; an empty
    /// pattern changes nothing.
    pub fn update(&mut self, pattern: &str, doc: &DocumentStamp, text: &str, theme: &str, smart_case: bool,
        ignore_case: bool)
        requires
            pattern@.len() > 0 ==> old(self).can_change(),
        ensures
            pattern@.len() == 0 ==> *final(self) == *old(self),
            pattern@.len() > 0 ==> {
                &&& ranges_of(final(self).vec@) == search_matches(pattern@, text@, smart_case, ignore_case)
                &&& final(self).version == old(self).version + 1
                &&& final(self).cache is Some
                &&& !update_needed(*final(self), pattern@, *doc, theme@)
                &&& final(self).cache matches Some(c) && c.string@ == pattern@ && c.doc.id == doc.id
                    && c.doc.version == doc.version && c.doc.theme@ == theme@ && c.doc.horizontal_offset is None
            },
    {
        if pattern.is_empty() {
            return;
        }
        let new_matches = Matches::find(pattern, text, smart_case, ignore_case);
        self.vec = new_matches;
        self.version = self.version + 1;
        self.cache = Some(SyncDataString {
            doc: SyncDataDoc { id: doc.id, version: doc.version, theme: theme.to_string(), horizontal_offset: None },
            string: pattern.to_string(),
        });
    }
}

/// The matches of the two searches: the active search pattern, and the
/// selected text.
pub struct MatchesMapCache {
    pub common: Matches,
    pub selection: Matches,
}

impl Default for MatchesMapCache {
    fn default() -> (c: Self)
        ensures
            c.common.cache is None && c.common.vec@.len() == 0 && c.common.version == 0,
            c.selection.cache is None && c.selection.vec@.len() == 0 && c.selection.version == 0,
    {
        MatchesMapCache { common: Matches::default(), selection: Matches::default() }
    }
}

impl MatchesMapCache {
    /// The matches of the search of `kind`.
    pub fn get(&self, kind: SearchKind) -> (r: &Matches)
        ensures
            r == if kind == SearchKind::Common { &self.common } else { &self.selection },
    {
        match kind {
            SearchKind::Common => &self.common,
            SearchKind::Selection => &self.selection,
        }
    }
}

/// Keeps the matches of the active search pattern current: they are dropped
/// when escape is released or the document state changed, and found anew
/// when there is a pattern they were not found for.
pub fn update_search_matches(matches_cache: &mut MatchesMapCache, escape_released: bool,
    new_search_pattern: &Option<String>, doc: &DocumentStamp, text: &str, theme: &str, smart_case: bool)
    requires
        old(matches_cache).common.version < usize::MAX - 1,
    ensures
        final(matches_cache).selection == old(matches_cache).selection,
        ({
            let m0 = old(matches_cache).common;
            let drop = escape_released || match m0.cache {
                Some(c) => doc_outdated(c.doc, *doc, theme@),
                None => true,
            };
            let m1_cache = if drop { None } else { m0.cache };
            let m1_version = if drop { cleared_version(m0) } else { m0.version };
            let m1_vec: Seq<MatchRange> = if drop { Seq::empty() } else { m0.vec@ };
            let m = final(matches_cache).common;
            match new_search_pattern {
                Some(p) if p@.len() > 0 && match m1_cache {
                    Some(c) => c.string@ != p@ || doc_outdated(c.doc, *doc, theme@),
                    None => true,
                } => {
                    &&& ranges_of(m.vec@) == search_matches(p@, text@, smart_case, true)
                    &&& m.version == m1_version + 1
                    &&& m.cache matches Some(c) && c.string@ == p@ && c.doc.id == doc.id
                        && c.doc.version == doc.version && c.doc.theme@ == theme@
                },
                _ => {
                    &&& m.cache == m1_cache
                    &&& m.vec@ == m1_vec
                    &&& m.version == m1_version
                },
            }
        }),
{
    let search_matches = &mut matches_cache.common;
    if escape_released || search_matches.cache_outdated(doc, theme) {
        search_matches.clear();
    }
    if let Some(new_pattern) = new_search_pattern {
        if search_matches.update_required(new_pattern, doc, theme) {
            let pattern = new_pattern.as_str();
            search_matches.update(pattern, doc, text, theme, smart_case, true);
        }
    }
}

/// What the selection highlighting reads of the editor's selection: the
/// number of ranges, the anchor and head (character indices) of the primary
/// range, and whether that range lies on one line.
#[derive(Clone, Copy, PartialEq, Eq, Debug, Structural)]
pub struct SelectionSummary {
    pub ranges: usize,
    pub anchor: usize,
    pub head: usize,
    pub single_line: bool,
}

/// The characters of the primary range, from its start to its end.
pub open spec fn selection_bounds(sel: SelectionSummary) -> (int, int) {
    if sel.head < sel.anchor { (sel.head as int, sel.anchor as int) } else { (sel.anchor as int, sel.head as int) }
}

/// Whether every character of `s` is white space.
pub open spec fn whitespace_only(s: Seq<char>) -> bool {
    forall|i: int| 0 <= i < s.len() ==> char_is_whitespace(#[trigger] s[i])
}

/// The text that the selection highlights, if any: the primary range of a
/// selection of one range, of two characters or more on one line, that is not
/// white space alone.
pub open spec fn selection_pattern(sel: SelectionSummary, text: Seq<char>) -> Option<Seq<char>> {
    let (begin, end) = selection_bounds(sel);
    if sel.ranges != 1 || end - begin < 2 || !sel.single_line || whitespace_only(text.subrange(begin, end)) {
        None
    } else {
        Some(text.subrange(begin, end))
    }
}

/// Whether every character of `s` is white space.
pub fn is_whitespace_only(s: &str) -> (r: bool)
    ensures
        r == whitespace_only(s@),
{
    let n = s.unicode_len();
    let mut i: usize = 0;
    while i < n
        invariant
            n == s@.len(),
            i <= n,
            forall|j: int| 0 <= j < i ==> char_is_whitespace(#[trigger] s@[j]),
        decreases n - i,
    {
        if !is_whitespace_char(s.get_char(i)) {
            return false;
        }
        i = i + 1;
    }
    true
}

/// Highlights the selected text as if it were searched for: when the
/// selection has a pattern (see `selection_pattern`) that the active search
/// does not already have (ignoring case), its matches are kept current;
/// otherwise the selection matches are dropped.
pub fn update_selection_search_matches(matches_cache: &mut MatchesMapCache, sel: &SelectionSummary,
    doc: &DocumentStamp, text: &str, theme: &str, smart_case: bool)
    requires
        sel.ranges == 1 ==> sel.anchor <= text@.len() && sel.head <= text@.len(),
        old(matches_cache).selection.can_change(),
    ensures
        final(matches_cache).common == old(matches_cache).common,
        ({
            let m0 = old(matches_cache).selection;
            let m = final(matches_cache).selection;
            match selection_pattern(*sel, text@) {
                None => m.cache is None && m.vec@.len() == 0 && m.version == cleared_version(m0),
                Some(p) => if (old(matches_cache).common.cache matches Some(c) && lowercase(c.string@) == lowercase(p)) {
                    m.cache is None && m.vec@.len() == 0 && m.version == cleared_version(m0)
                } else if match m0.cache {
                    Some(c) => c.string@ != p || doc_outdated(c.doc, *doc, theme@),
                    None => true,
                } {
                    &&& ranges_of(m.vec@) == search_matches(p, text@, smart_case, true)
                    &&& m.version == m0.version + 1
                    &&& m.cache matches Some(c) && c.string@ == p && c.doc.id == doc.id
                        && c.doc.version == doc.version && c.doc.theme@ == theme@
                } else {
                    m == m0
                },
            }
        }),
{
    if sel.ranges != 1 {
        matches_cache.selection.clear();
        return;
    }
    let (begin, end) = if sel.head < sel.anchor { (sel.head, sel.anchor) } else { (sel.anchor, sel.head) };
    if end - begin < 2 || !sel.single_line {
        matches_cache.selection.clear();
        return;
    }
    let selection_slice = text.substring_char(begin, end);
    if is_whitespace_only(selection_slice) {
        matches_cache.selection.clear();
        return;
    }
    let new_selection_search_pattern = selection_slice.to_string();
    let search_pattern_already_active = match &matches_cache.common.cache {
        Some(cache) => {
            let a = to_lowercase_string(cache.string.as_str());
            let b = to_lowercase_string(selection_slice);
            a == b
        },
        None => false,
    };
    if search_pattern_already_active {
        matches_cache.selection.clear();
    } else if matches_cache.selection.update_required(&new_selection_search_pattern, doc, theme) {
        let pattern = new_selection_search_pattern.as_str();
        matches_cache.selection.update(pattern, doc, text, theme, smart_case, true);
    }
}

/// Matches just found for a pattern in a document state need no update for
/// that pattern and state, and are not outdated for it.
pub proof fn lemma_updated_matches_current(m: Matches, pattern: Seq<char>, doc: DocumentStamp, theme: Seq<char>)
    requires
        m.cache matches Some(c) && c.string@ == pattern && c.doc.id == doc.id && c.doc.version == doc.version
            && c.doc.theme@ == theme,
    ensures
        m.cache matches Some(c) && !(c.string@ != pattern || doc_outdated(c.doc, doc, theme)),
        m.cache matches Some(c) && !doc_outdated(c.doc, doc, theme),
{
}

/// Clearing never makes the version go down, and makes it go up exactly when
/// there was a search.
pub proof fn lemma_clear_version(m: Matches)
    requires
        m.cache is Some ==> m.can_change(),
    ensures
        cleared_version(m) >= m.version,
        cleared_version(m) > m.version <==> m.cache is Some,
{
}

} // verus!
