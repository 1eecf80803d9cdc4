//! Counting the occurrences of literal patterns in text files: the
//! matcher that picks the lines to look at, the per-pattern regexes, and the
//! tally of occurrences per pattern.
use vstd::prelude::*;
use vstd::string::*;
use crate::path::join_with;
use crate::text::push_char;
pub use crate::pattern::{LineMatcher, LiteralPattern};
use crate::pattern::{build_line_matcher, compile_literal, count_matches, matcher_builds, regex_compiles};

verus! {

#[verifier::external_type_specification]
#[verifier::external_body]
pub struct ExRegex(regex::Regex);

#[verifier::external_type_specification]
#[verifier::external_body]
pub struct ExRegexError(regex::Error);

#[verifier::external_type_specification]
#[verifier::external_body]
pub struct ExRegexMatcher(grep_regex::RegexMatcher);

#[verifier::external_type_specification]
#[verifier::external_body]
pub struct ExGrepRegexError(grep_regex::Error);

/// What goes wrong while counting.
#[derive(Debug)]
pub enum GrepError {
    NotATextFile(String),
    FileReadError(String),
    FileProcessingError(String),
    OperationCancelled,
    BuilingRegExError(grep_regex::Error),
    RegExError(regex::Error),
    IOError(String),
}

impl From<grep_regex::Error> for GrepError {
    fn from(e: grep_regex::Error) -> (r: Self) {
        GrepError::BuilingRegExError(e)
    }
}

impl vstd::std_specs::convert::FromSpecImpl<grep_regex::Error> for GrepError {
    open spec fn obeys_from_spec() -> bool {
        true
    }

    open spec fn from_spec(v: grep_regex::Error) -> Self {
        GrepError::BuilingRegExError(v)
    }
}

impl From<regex::Error> for GrepError {
    fn from(e: regex::Error) -> (r: Self) {
        GrepError::RegExError(e)
    }
}

impl vstd::std_specs::convert::FromSpecImpl<regex::Error> for GrepError {
    open spec fn obeys_from_spec() -> bool {
        true
    }

    open spec fn from_spec(v: regex::Error) -> Self {
        GrepError::RegExError(v)
    }
}

/// The characters that have a meaning in a regular expression.
pub open spec fn is_meta(c: char) -> bool {
    c == '\\' || c == '.' || c == '+' || c == '*' || c == '?' || c == '(' || c == ')' || c == '|'
        || c == '[' || c == ']' || c == '{' || c == '}' || c == '^' || c == '$' || c == '#' || c
        == '&' || c == '-' || c == '~'
}

/// `s` with a backslash before each character that has a meaning in a
/// regular expression: a regular expression that matches `s` literally.
pub open spec fn escaped(s: Seq<char>) -> Seq<char>
    decreases s.len(),
{
    if s.len() == 0 {
        Seq::<char>::empty()
    } else {
        escaped(s.drop_last()) + if is_meta(s.last()) {
            seq!['\\', s.last()]
        } else {
            seq![s.last()]
        }
    }
}

/// The number of non-overlapping occurrences of the non-empty `lit` in
/// `hay`, found from left to right.
pub open spec fn occurrences(lit: Seq<char>, hay: Seq<char>) -> nat
    decreases hay.len(),
{
    if lit.len() == 0 || hay.len() < lit.len() {
        0
    } else if hay.take(lit.len() as int) == lit {
        1 + occurrences(lit, hay.skip(lit.len() as int))
    } else {
        occurrences(lit, hay.drop_first())
    }
}

/// The number of matches of the literal `lit` in `hay`: its occurrences,
/// or for the empty literal one match at each of the `hay.len() + 1`
/// character boundaries.
pub open spec fn literal_matches(lit: Seq<char>, hay: Seq<char>) -> nat {
    if lit.len() == 0 {
        (hay.len() + 1) as nat
    } else {
        occurrences(lit, hay)
    }
}

/// `regex::escape`: the text with each meta character preceded by a
/// backslash. The contract restates the function's documented behaviour
/// (and its source, `regex_syntax::escape` with `is_meta_character`).
#[verifier::external_body]
fn escape(text: &str) -> (r: String)
    ensures
        r@ == escaped(text@),
{
    regex::escape(text)
}

/// The escaped patterns.
pub open spec fn escaped_all(patterns: Seq<&str>) -> Seq<Seq<char>> {
    patterns.map_values(|p: &str| escaped(p@))
}

/// The matcher for the lines that hold any of `patterns`.
pub fn get_matcher(patterns: &[&str]) -> (r: Result<LineMatcher, GrepError>)
    ensures
        r is Ok <==> matcher_builds(join_with(escaped_all(patterns@), '|')),
        r matches Ok(m) ==> m.source() == join_with(escaped_all(patterns@), '|'),
        r matches Err(e) ==> e is BuilingRegExError,
{
    let mut source = String::new();
    let mut i: usize = 0;
    while i < patterns.len()
        invariant
            i <= patterns@.len(),
            source@ == join_with(escaped_all(patterns@).take(i as int), '|'),
        decreases patterns.len() - i,
    {
        let ghost es = escaped_all(patterns@);
        assert(es.take(i + 1).drop_last() =~= es.take(i as int));
        if i > 0 {
            push_char(&mut source, '|');
        }
        let e = escape(patterns[i]);
        source.append(e.as_str());
        i = i + 1;
        assert(source@ =~= join_with(es.take(i as int), '|'));
    }
    assert(escaped_all(patterns@).take(patterns@.len() as int) =~= escaped_all(patterns@));
    match build_line_matcher(source) {
        Ok(m) => Ok(m),
        Err(e) => Err(GrepError::BuilingRegExError(e)),
    }
}

/// The regexes of the patterns, in order, each matching its pattern
/// literally. Case is always significant.
pub fn get_patterns_as_regs(patterns: &[&str], case_sensitive: bool) -> (r: Result<
    Vec<LiteralPattern>,
    GrepError,
>)
    ensures
        r is Ok <==> forall|i: int|
            0 <= i < patterns@.len() ==> regex_compiles(#[trigger] escaped(patterns@[i]@)),
        r matches Ok(v) ==> {
            &&& v@.len() == patterns@.len()
            &&& forall|i: int|
                0 <= i < v@.len() ==> (#[trigger] v@[i]).literal() == patterns@[i]@ && v@[i].source()
                    == escaped(patterns@[i]@)
        },
        r matches Err(e) ==> e is RegExError,
{
    let mut regs: Vec<LiteralPattern> = Vec::new();
    let mut i: usize = 0;
    while i < patterns.len()
        invariant
            i <= patterns@.len(),
            regs@.len() == i,
            forall|j: int|
                0 <= j < i ==> (#[trigger] regs@[j]).literal() == patterns@[j]@ && regs@[j].source()
                    == escaped(patterns@[j]@),
            forall|j: int| 0 <= j < i ==> regex_compiles(#[trigger] escaped(patterns@[j]@)),
        decreases patterns.len() - i,
    {
        let source = escape(patterns[i]);
        match compile_literal(String::from_str(patterns[i]), source) {
            Ok(p) => {
                regs.push(p);
            },
            Err(e) => {
                return Err(GrepError::RegExError(e));
            },
        }
        i = i + 1;
    }
    Ok(regs)
}

/// The counts that a list of entries stands for, a later entry winning
/// over an earlier one with the same key.
pub open spec fn counts_map(es: Seq<(String, usize)>) -> Map<Seq<char>, nat>
    decreases es.len(),
{
    if es.len() == 0 {
        Map::<Seq<char>, nat>::empty()
    } else {
        counts_map(es.drop_last()).insert(es.last().0@, es.last().1 as nat)
    }
}

pub open spec fn distinct_count_keys(es: Seq<(String, usize)>) -> bool {
    forall|i: int, j: int| 0 <= i < j < es.len() ==> es[i].0@ != es[j].0@
}

/// The count of `k` in `m`, zero where `m` has none.
pub open spec fn count_of(m: Map<Seq<char>, nat>, k: Seq<char>) -> nat {
    if m.dom().contains(k) {
        m[k]
    } else {
        0
    }
}

proof fn lemma_counts_map_dom(es: Seq<(String, usize)>, k: Seq<char>)
    ensures
        counts_map(es).dom().contains(k) <==> exists|i: int| 0 <= i < es.len() && es[i].0@ == k,
    decreases es.len(),
{
    if es.len() > 0 {
        lemma_counts_map_dom(es.drop_last(), k);
        if counts_map(es.drop_last()).dom().contains(k) {
            let i = choose|i: int| 0 <= i < es.len() - 1 && es.drop_last()[i].0@ == k;
            assert(es[i].0@ == k);
        }
        if exists|i: int| 0 <= i < es.len() && es[i].0@ == k {
            let i = choose|i: int| 0 <= i < es.len() && es[i].0@ == k;
            if i < es.len() - 1 {
                assert(es.drop_last()[i].0@ == k);
            }
        }
    }
}

proof fn lemma_counts_map_index(es: Seq<(String, usize)>, i: int)
    requires
        distinct_count_keys(es),
        0 <= i < es.len(),
    ensures
        counts_map(es).dom().contains(es[i].0@),
        counts_map(es)[es[i].0@] == es[i].1 as nat,
    decreases es.len(),
{
    if i < es.len() - 1 {
        assert(es.drop_last()[i] == es[i]);
        lemma_counts_map_index(es.drop_last(), i);
    }
}

proof fn lemma_counts_map_update(es: Seq<(String, usize)>, i: int, e: (String, usize))
    requires
        distinct_count_keys(es),
        0 <= i < es.len(),
        es[i].0@ == e.0@,
    ensures
        counts_map(es.update(i, e)) == counts_map(es).insert(e.0@, e.1 as nat),
        distinct_count_keys(es.update(i, e)),
    decreases es.len(),
{
    let u = es.update(i, e);
    if i == es.len() - 1 {
        assert(u.drop_last() =~= es.drop_last());
        assert(counts_map(u) =~= counts_map(es).insert(e.0@, e.1 as nat));
    } else {
        assert(u.drop_last() =~= es.drop_last().update(i, e));
        lemma_counts_map_update(es.drop_last(), i, e);
        assert(es.last().0@ != e.0@);
        assert(counts_map(u) =~= counts_map(es).insert(e.0@, e.1 as nat));
    }
}

/// The number of occurrences found per pattern, each pattern once.
#[derive(Debug)]
pub struct PatternCounts {
    entries: Vec<(String, usize)>,
}

impl View for PatternCounts {
    type V = Map<Seq<char>, nat>;

    closed spec fn view(&self) -> Map<Seq<char>, nat> {
        counts_map(self.entries@)
    }
}

impl Clone for PatternCounts {
    fn clone(&self) -> (c: Self)
        ensures
            c@ == self@,
    {
        proof {
            use_type_invariant(self);
        }
        let mut entries: Vec<(String, usize)> = Vec::new();
        let mut i: usize = 0;
        while i < self.entries.len()
            invariant
                i <= self.entries@.len(),
                distinct_count_keys(self.entries@),
                entries@.len() == i,
                forall|j: int|
                    0 <= j < i ==> (#[trigger] entries@[j]).0@ == self.entries@[j].0@ && entries@[j].1
                        == self.entries@[j].1,
            decreases self.entries.len() - i,
        {
            let key = self.entries[i].0.clone();
            entries.push((key, self.entries[i].1));
            i = i + 1;
        }
        proof {
            lemma_counts_map_same(entries@, self.entries@);
        }
        PatternCounts { entries }
    }
}

proof fn lemma_counts_map_same(a: Seq<(String, usize)>, b: Seq<(String, usize)>)
    requires
        a.len() == b.len(),
        forall|j: int| 0 <= j < a.len() ==> (#[trigger] a[j]).0@ == b[j].0@ && a[j].1 == b[j].1,
    ensures
        counts_map(a) == counts_map(b),
        distinct_count_keys(b) ==> distinct_count_keys(a),
    decreases a.len(),
{
    if a.len() > 0 {
        lemma_counts_map_same(a.drop_last(), b.drop_last());
        assert(a.last() == a[a.len() - 1]);
    }
    if distinct_count_keys(b) {
        assert forall|i: int, j: int| 0 <= i < j < a.len() implies a[i].0@ != a[j].0@ by {
            assert(a[i].0@ == b[i].0@);
            assert(a[j].0@ == b[j].0@);
        }
    }
}

impl PatternCounts {
    /// Each pattern occurs once.
    #[verifier::type_invariant]
    closed spec fn keys_distinct(self) -> bool {
        distinct_count_keys(self.entries@)
    }

    /// No counts.
    pub fn new() -> (c: PatternCounts)
        ensures
            c@ == Map::<Seq<char>, nat>::empty(),
    {
        PatternCounts { entries: Vec::new() }
    }

    /// The count of `key`, if it has one.
    pub fn get(&self, key: &str) -> (r: Option<usize>)
        ensures
            r matches Some(n) ==> self@.dom().contains(key@) && self@[key@] == n as nat,
            r is None ==> !self@.dom().contains(key@),
    {
        proof {
            use_type_invariant(self);
        }
        let k = String::from_str(key);
        let mut i: usize = 0;
        while i < self.entries.len()
            invariant
                distinct_count_keys(self.entries@),
                k@ == key@,
                i <= self.entries@.len(),
                forall|j: int| 0 <= j < i ==> self.entries@[j].0@ != key@,
            decreases self.entries.len() - i,
        {
            if self.entries[i].0 == k {
                proof {
                    lemma_counts_map_index(self.entries@, i as int);
                }
                return Some(self.entries[i].1);
            }
            i = i + 1;
        }
        proof {
            lemma_counts_map_dom(self.entries@, key@);
        }
        None
    }

    /// Adds `n` to the count of `key`, which starts at zero.
    pub fn add(&mut self, key: String, n: usize)
        requires
            count_of(old(self)@, key@) + n <= usize::MAX,
        ensures
            final(self)@ == old(self)@.insert(key@, count_of(old(self)@, key@) + n as nat),
    {
        proof {
            use_type_invariant(&*self);
        }
        let mut entries: Vec<(String, usize)> = Vec::new();
        std::mem::swap(&mut entries, &mut self.entries);
        let mut i: usize = 0;
        while i < entries.len()
            invariant
                distinct_count_keys(entries@),
                entries@ == old(self).entries@,
                count_of(old(self)@, key@) + n <= usize::MAX,
                i <= entries@.len(),
                forall|j: int| 0 <= j < i ==> entries@[j].0@ != key@,
            decreases entries.len() - i,
        {
            if entries[i].0 == key {
                proof {
                    lemma_counts_map_index(entries@, i as int);
                }
                let total = entries[i].1 + n;
                proof {
                    lemma_counts_map_update(entries@, i as int, (key, total));
                }
                entries.set(i, (key, total));
                self.entries = entries;
                return;
            }
            i = i + 1;
        }
        proof {
            lemma_counts_map_dom(entries@, key@);
        }
        let ghost prev = entries@;
        entries.push((key, n));
        assert(entries@.drop_last() =~= prev);
        self.entries = entries;
    }

    /// The patterns with their counts.
    pub fn entries(&self) -> (es: &Vec<(String, usize)>)
        ensures
            counts_map(es@) == self@,
    {
        &self.entries
    }
}

/// The counts after one line: each pattern's number of matches in the line
/// added to the count of its regex text (patterns with the same text share
/// one count).
pub open spec fn tally(m: Map<Seq<char>, nat>, patterns: Seq<LiteralPattern>, line: Seq<char>) -> Map<
    Seq<char>,
    nat,
>
    decreases patterns.len(),
{
    if patterns.len() == 0 {
        m
    } else {
        let prev = tally(m, patterns.drop_last(), line);
        let p = patterns.last();
        prev.insert(p.source(), count_of(prev, p.source()) + literal_matches(p.literal(), line))
    }
}

/// Whether no count of the tally exceeds `usize::MAX`.
pub open spec fn tally_fits(m: Map<Seq<char>, nat>, patterns: Seq<LiteralPattern>, line: Seq<char>) -> bool {
    forall|k: Seq<char>| #[trigger] tally(m, patterns, line).dom().contains(k) ==> tally(m, patterns, line)[k] <= usize::MAX
}

/// Counts never decrease along a tally.
proof fn lemma_tally_grows(m: Map<Seq<char>, nat>, patterns: Seq<LiteralPattern>, line: Seq<char>, n: int)
    requires
        0 <= n <= patterns.len(),
    ensures
        forall|k: Seq<char>| #[trigger] tally(m, patterns.take(n), line).dom().contains(k) ==> tally(m, patterns, line).dom().contains(k)
            && tally(m, patterns.take(n), line)[k] <= tally(m, patterns, line)[k],
    decreases patterns.len(),
{
    if n < patterns.len() {
        assert(patterns.drop_last().take(n) =~= patterns.take(n));
        lemma_tally_grows(m, patterns.drop_last(), line, n);
    } else {
        assert(patterns.take(n) =~= patterns);
    }
}

/// Adds the matches of the patterns in `line` to the counts, pattern by
/// pattern.
pub fn tally_line(counts: &mut PatternCounts, patterns: &[LiteralPattern], line: &str)
    requires
        tally_fits(old(counts)@, patterns@, line@),
    ensures
        final(counts)@ == tally(old(counts)@, patterns@, line@),
{
    let ghost start = counts@;
    let mut i: usize = 0;
    assert(patterns@.take(0) =~= Seq::<LiteralPattern>::empty());
    while i < patterns.len()
        invariant
            i <= patterns@.len(),
            tally_fits(start, patterns@, line@),
            counts@ == tally(start, patterns@.take(i as int), line@),
        decreases patterns.len() - i,
    {
        let ghost pre = patterns@.take(i as int);
        let ghost post = patterns@.take(i + 1);
        assert(post.drop_last() =~= pre);
        let n = count_matches(&patterns[i], line);
        let key = patterns[i].source_text();
        proof {
            lemma_tally_grows(start, patterns@, line@, i + 1);
            assert(tally(start, post, line@).dom().contains(key@));
        }
        counts.add(key, n);
        i = i + 1;
    }
    assert(patterns@.take(patterns@.len() as int) =~= patterns@);
}

proof fn lemma_counts_map_bounded(es: Seq<(String, usize)>)
    ensures
        forall|k: Seq<char>| #[trigger] counts_map(es).dom().contains(k) ==> counts_map(es)[k] <= usize::MAX,
    decreases es.len(),
{
    if es.len() > 0 {
        lemma_counts_map_bounded(es.drop_last());
        let m = counts_map(es);
        assert forall|k: Seq<char>| #[trigger] m.dom().contains(k) implies m[k] <= usize::MAX by {
            if k != es.last().0@ {
                assert(counts_map(es.drop_last()).dom().contains(k));
            }
        }
    }
}

impl PatternCounts {
    /// No count exceeds `usize::MAX`.
    pub proof fn lemma_bounded(&self)
        ensures
            forall|k: Seq<char>| #[trigger] self@.dom().contains(k) ==> self@[k] <= usize::MAX,
    {
        lemma_counts_map_bounded(self.entries@);
    }
}

/// Adds the matches of the patterns in `line` to the counts, as
/// `tally_line` does, where no count would exceed `usize::MAX`; else leaves
/// the counts as they are. Says which it did.
pub fn try_tally_line(counts: &mut PatternCounts, patterns: &[LiteralPattern], line: &str) -> (ok: bool)
    ensures
        ok == tally_fits(old(counts)@, patterns@, line@),
        ok ==> final(counts)@ == tally(old(counts)@, patterns@, line@),
        !ok ==> final(counts)@ == old(counts)@,
{
    let ghost start = counts@;
    let mut work = counts.clone();
    let mut i: usize = 0;
    assert(patterns@.take(0) =~= Seq::<LiteralPattern>::empty());
    while i < patterns.len()
        invariant
            i <= patterns@.len(),
            start == old(counts)@,
            work@ == tally(start, patterns@.take(i as int), line@),
        decreases patterns.len() - i,
    {
        let ghost pre = patterns@.take(i as int);
        let ghost post = patterns@.take(i + 1);
        assert(post.drop_last() =~= pre);
        let n = count_matches(&patterns[i], line);
        let key = patterns[i].source_text();
        let current = match work.get(key.as_str()) {
            Some(c) => c,
            None => 0,
        };
        if current > usize::MAX - n {
            proof {
                lemma_tally_grows(start, patterns@, line@, i + 1);
                assert(tally(start, post, line@).dom().contains(key@));
            }
            return false;
        }
        work.add(key, n);
        i = i + 1;
    }
    assert(patterns@.take(patterns@.len() as int) =~= patterns@);
    proof {
        work.lemma_bounded();
    }
    *counts = work;
    true
}

/// What counting gives for one file: its path, the counts, and the reason
/// it was not counted, if so.
#[derive(Clone, Debug)]
pub struct SearchResult {
    pub file_path: String,
    pub pattern_counts: PatternCounts,
    pub error_message: Option<String>,
}

/// Whether the file at `file_path` is one to count in: every file is.
pub fn is_text_file(file_path: &str) -> (b: bool)
    ensures
        b,
{
    true
}

impl SearchResult {
    /// The result for a file that is not a text file: no counts, and the
    /// message that says so.
    pub fn not_a_text_file(file_path: String) -> (r: SearchResult)
        ensures
            r.file_path == file_path,
            r.pattern_counts@ == Map::<Seq<char>, nat>::empty(),
            r.error_message matches Some(m) && m@ == "File '"@ + file_path@ + "' is not a text file"@,
    {
        let mut m = String::from_str("File '");
        m.append(file_path.as_str());
        m.append("' is not a text file");
        SearchResult { file_path, pattern_counts: PatternCounts::new(), error_message: Some(m) }
    }

    /// The result for a counted file.
    pub fn counted(file_path: String, pattern_counts: PatternCounts) -> (r: SearchResult)
        ensures
            r.file_path == file_path,
            r.pattern_counts == pattern_counts,
            r.error_message is None,
    {
        SearchResult { file_path, pattern_counts, error_message: None }
    }
}

/// What the counting does next.
pub enum ScanAction {
    /// Count in the file with this index.
    Process(usize),
    /// All files are done.
    Finish,
    /// Stop: the operation was cancelled.
    Cancel,
}

/// What the counting does after `processed` of `total` files.
pub open spec fn spec_next_scan_action(processed: int, total: int, cancelled: bool) -> ScanAction {
    if processed >= total {
        ScanAction::Finish
    } else if cancelled {
        ScanAction::Cancel
    } else {
        ScanAction::Process(processed as usize)
    }
}

/// A whole scan driven by `next_scan_action` from file `k` on, where the
/// answer to the cancellation check before the file with index `j` is
/// `cancels[j]`, and every processed file gets its result whatever it is:
/// the indices of the files processed, in order, and whether the scan was
/// cancelled.
pub open spec fn scan_run(k: int, total: int, cancels: Seq<bool>) -> (Seq<int>, bool)
    decreases total - k,
{
    if k < 0 || k >= total {
        (Seq::<int>::empty(), false)
    } else {
        match spec_next_scan_action(k, total, cancels[k]) {
            ScanAction::Process(i) => {
                let rest = scan_run(k + 1, total, cancels);
                (seq![i as int] + rest.0, rest.1)
            },
            ScanAction::Cancel => (Seq::<int>::empty(), true),
            ScanAction::Finish => (Seq::<int>::empty(), false),
        }
    }
}

/// Without cancellation a scan processes every file once, in order, and
/// finishes; with the first cancellation seen before the file with index
/// `j`, it processes the files before it, in order, and stops cancelled.
/// The results of the files play no part, so a failing file does not stop
/// the later ones.
pub proof fn law_scan_visits_files_in_order(k: int, total: int, cancels: Seq<bool>)
    requires
        0 <= k <= total <= usize::MAX,
        cancels.len() >= total,
    ensures
        (forall|j: int| k <= j < total ==> !#[trigger] cancels[j]) ==> scan_run(k, total, cancels) == (
            Seq::new((total - k) as nat, |i: int| k + i),
            false,
        ),
        forall|j: int|
            k <= j < total && #[trigger] cancels[j] && (forall|m: int| k <= m < j ==> !cancels[m])
                ==> scan_run(k, total, cancels) == (Seq::new((j - k) as nat, |i: int| k + i), true),
    decreases total - k,
{
    if k < total {
        law_scan_visits_files_in_order(k + 1, total, cancels);
        let rest = scan_run(k + 1, total, cancels);
        if !cancels[k] {
            assert((k as usize) as int == k);
            if forall|j: int| k <= j < total ==> !#[trigger] cancels[j] {
                assert(seq![k] + Seq::new((total - k - 1) as nat, |i: int| k + 1 + i) =~= Seq::new(
                    (total - k) as nat,
                    |i: int| k + i,
                ));
            }
            assert forall|j: int|
                k <= j < total && #[trigger] cancels[j] && (forall|m: int| k <= m < j ==> !cancels[m])
                    implies scan_run(k, total, cancels) == (Seq::new((j - k) as nat, |i: int| k + i), true) by {
                assert(j != k);
                assert(forall|m: int| k + 1 <= m < j ==> !cancels[m]);
                assert(seq![k] + Seq::new((j - k - 1) as nat, |i: int| k + 1 + i) =~= Seq::new(
                    (j - k) as nat,
                    |i: int| k + i,
                ));
            }
        } else {
            assert forall|j: int|
                k <= j < total && #[trigger] cancels[j] && (forall|m: int| k <= m < j ==> !cancels[m])
                    implies scan_run(k, total, cancels) == (Seq::new((j - k) as nat, |i: int| k + i), true) by {
                if j > k {
                    assert(!cancels[k]);
                }
                assert(Seq::new((j - k) as nat, |i: int| k + i) =~= Seq::<int>::empty());
            }
        }
    } else {
        assert(Seq::new((total - k) as nat, |i: int| k + i) =~= Seq::<int>::empty());
    }
}

/// What the counting does after `processed` of `total` files, given
/// whether cancellation was asked for: the check for cancellation comes
/// before each file, none after the last.
pub fn next_scan_action(processed: usize, total: usize, cancelled: bool) -> (a: ScanAction)
    ensures
        processed >= total ==> a is Finish,
        processed < total && cancelled ==> a is Cancel,
        processed < total && !cancelled ==> a == ScanAction::Process(processed),
        a == spec_next_scan_action(processed as int, total as int, cancelled),
{
    if processed >= total {
        ScanAction::Finish
    } else if cancelled {
        ScanAction::Cancel
    } else {
        ScanAction::Process(processed)
    }
}

proof fn lemma_escaped_len(s: Seq<char>)
    ensures
        escaped(s).len() >= s.len(),
        s.len() > 0 ==> escaped(s).len() > 0 && escaped(s).last() == s.last(),
    decreases s.len(),
{
    if s.len() > 0 {
        lemma_escaped_len(s.drop_last());
    }
}

/// Different patterns have different regex texts, so no two different
/// patterns ever share a count.
pub proof fn law_escape_injective(a: Seq<char>, b: Seq<char>)
    requires
        escaped(a) == escaped(b),
    ensures
        a == b,
    decreases a.len() + b.len(),
{
    lemma_escaped_len(a);
    lemma_escaped_len(b);
    if a.len() == 0 || b.len() == 0 {
        if a.len() == 0 && b.len() > 0 {
            assert(escaped(a).len() == 0);
        }
        if b.len() == 0 && a.len() > 0 {
            assert(escaped(b).len() == 0);
        }
        assert(a =~= b);
    } else {
        let ea = escaped(a.drop_last());
        let eb = escaped(b.drop_last());
        let x = a.last();
        let y = b.last();
        assert(x == y);
        if is_meta(x) {
            assert(escaped(a) == ea + seq!['\\', x]);
            assert(escaped(b) == eb + seq!['\\', y]);
            assert(ea =~= escaped(a).subrange(0, escaped(a).len() - 2));
            assert(eb =~= escaped(b).subrange(0, escaped(b).len() - 2));
        } else {
            assert(escaped(a) == ea + seq![x]);
            assert(escaped(b) == eb + seq![y]);
            assert(ea =~= escaped(a).drop_last());
            assert(eb =~= escaped(b).drop_last());
        }
        law_escape_injective(a.drop_last(), b.drop_last());
        assert(a =~= a.drop_last().push(x));
        assert(b =~= b.drop_last().push(y));
    }
}

/// Matches of a non-empty literal do not overlap: together they take no
/// more characters than the line has.
pub proof fn law_matches_do_not_overlap(lit: Seq<char>, hay: Seq<char>)
    requires
        lit.len() > 0,
    ensures
        occurrences(lit, hay) * lit.len() <= hay.len(),
    decreases hay.len(),
{
    let n = lit.len();
    if hay.len() < n {
        assert(occurrences(lit, hay) == 0);
        assert(0 * n == 0) by (nonlinear_arith);
    } else if hay.take(n as int) == lit {
        law_matches_do_not_overlap(lit, hay.skip(n as int));
        let o = occurrences(lit, hay.skip(n as int));
        assert(occurrences(lit, hay) == 1 + o);
        assert((1 + o) * n == n + o * n) by (nonlinear_arith);
    } else {
        law_matches_do_not_overlap(lit, hay.drop_first());
        assert(occurrences(lit, hay) == occurrences(lit, hay.drop_first()));
    }
}

/// The counts after the lines, one after the other.
pub open spec fn tally_lines(m: Map<Seq<char>, nat>, patterns: Seq<LiteralPattern>, lines: Seq<Seq<char>>) -> Map<
    Seq<char>,
    nat,
>
    decreases lines.len(),
{
    if lines.len() == 0 {
        m
    } else {
        tally(tally_lines(m, patterns, lines.drop_last()), patterns, lines.last())
    }
}

/// The matches in `line` of the patterns whose regex text is `s`.
pub open spec fn matches_for(patterns: Seq<LiteralPattern>, s: Seq<char>, line: Seq<char>) -> nat
    decreases patterns.len(),
{
    if patterns.len() == 0 {
        0
    } else {
        matches_for(patterns.drop_last(), s, line) + if patterns.last().source() == s {
            literal_matches(patterns.last().literal(), line)
        } else {
            0
        }
    }
}

/// The matches of the literal over all the lines.
pub open spec fn line_sum(lit: Seq<char>, lines: Seq<Seq<char>>) -> nat
    decreases lines.len(),
{
    if lines.len() == 0 {
        0
    } else {
        line_sum(lit, lines.drop_last()) + literal_matches(lit, lines.last())
    }
}

proof fn lemma_tally_count(m: Map<Seq<char>, nat>, patterns: Seq<LiteralPattern>, line: Seq<char>, s: Seq<char>)
    ensures
        count_of(tally(m, patterns, line), s) == count_of(m, s) + matches_for(patterns, s, line),
    decreases patterns.len(),
{
    if patterns.len() > 0 {
        lemma_tally_count(m, patterns.drop_last(), line, s);
    }
}

proof fn lemma_matches_for_unique(patterns: Seq<LiteralPattern>, k: int, line: Seq<char>)
    requires
        0 <= k < patterns.len(),
        forall|i: int| 0 <= i < patterns.len() && #[trigger] patterns[i].source() == patterns[k].source() ==> i == k,
    ensures
        matches_for(patterns, patterns[k].source(), line) == literal_matches(patterns[k].literal(), line),
    decreases patterns.len(),
{
    let s = patterns[k].source();
    if k < patterns.len() - 1 {
        let pre = patterns.drop_last();
        assert(pre[k] == patterns[k]);
        assert forall|i: int| 0 <= i < pre.len() && #[trigger] pre[i].source() == pre[k].source() implies i == k by {
            assert(pre[i] == patterns[i]);
        }
        lemma_matches_for_unique(pre, k, line);
        assert(patterns.last().source() != s);
    } else {
        lemma_matches_for_none(patterns.drop_last(), s, line, patterns);
    }
}

proof fn lemma_matches_for_none(pre: Seq<LiteralPattern>, s: Seq<char>, line: Seq<char>, all: Seq<LiteralPattern>)
    requires
        pre.len() < all.len(),
        forall|i: int| 0 <= i < pre.len() ==> pre[i] == all[i],
        forall|i: int| 0 <= i < all.len() && #[trigger] all[i].source() == s ==> i == all.len() - 1,
    ensures
        matches_for(pre, s, line) == 0,
    decreases pre.len(),
{
    if pre.len() > 0 {
        assert(pre.last() == all[pre.len() - 1]);
        lemma_matches_for_none(pre.drop_last(), s, line, all);
    }
}

/// What a pattern counts over several lines is the total of its matches
/// in each of them, added to where its count stood, when no other pattern
/// has the same regex text.
pub proof fn law_counts_sum_over_lines(
    m: Map<Seq<char>, nat>,
    patterns: Seq<LiteralPattern>,
    lines: Seq<Seq<char>>,
    k: int,
)
    requires
        0 <= k < patterns.len(),
        forall|i: int| 0 <= i < patterns.len() && #[trigger] patterns[i].source() == patterns[k].source() ==> i == k,
    ensures
        count_of(tally_lines(m, patterns, lines), patterns[k].source()) == count_of(
            m,
            patterns[k].source(),
        ) + line_sum(patterns[k].literal(), lines),
    decreases lines.len(),
{
    if lines.len() > 0 {
        law_counts_sum_over_lines(m, patterns, lines.drop_last(), k);
        lemma_tally_count(tally_lines(m, patterns, lines.drop_last()), patterns, lines.last(), patterns[k].source());
        lemma_matches_for_unique(patterns, k, lines.last());
    }
}

} // verus!
