//! The small TOML reader of the release tool: the `key = value` pairs of one
//! `[section]`, string values with their quotes removed, and inline arrays.
use vstd::prelude::*;
use vstd::string::*;
use crate::path::join_with;
use crate::text::{
    is_ws, join_lines, lacks, lemma_first_index_none, lemma_first_index_prefix, lemma_raw_lines_join,
    lemma_trim_noop, first_index, lemma_split_on_append_plain, lemma_split_on_concat,
    chars_eq, chars_of, find_char, lemma_first_index_bounds, lemma_split_on_len, raw_lines, split_chars, split_on, split_once,
    string_of_range, strings_view, vec_of_range, strip_leading, strip_leading_bound, strip_trailing, strip_trailing_bound, trim,
    trim_bounds, trim_start,
};

verus! {

/// A value as the reader keeps it: trimmed, and without its surrounding
/// double quotes when it has them.
pub open spec fn toml_value(s: Seq<char>) -> Seq<char> {
    let t = trim(s);
    if t.len() >= 2 && t[0] == '"' && t.last() == '"' {
        t.subrange(1, t.len() - 1)
    } else {
        t
    }
}

/// Whether a trimmed line opens a section: it starts with `[` and ends
/// with `]`.
pub open spec fn is_header(line: Seq<char>) -> bool {
    line.len() > 0 && line[0] == '[' && line.last() == ']'
}

/// The name of the section that a header line opens.
pub open spec fn header_name(line: Seq<char>) -> Seq<char> {
    strip_trailing(strip_leading(line, '['), ']')
}

/// What one line does to the reader's state (the section it is in, and the
/// pairs read so far from the wanted section).
pub open spec fn scan_line(
    st: (Seq<char>, Map<Seq<char>, Seq<char>>),
    raw: Seq<char>,
    section: Seq<char>,
) -> (Seq<char>, Map<Seq<char>, Seq<char>>) {
    let line = trim(raw);
    if line.len() == 0 || line[0] == '#' {
        st
    } else if is_header(line) {
        (header_name(line), st.1)
    } else if st.0 != section {
        st
    } else {
        match split_once(line, '=') {
            Some((k, v)) => (st.0, st.1.insert(trim(k), toml_value(trim(v)))),
            None => st,
        }
    }
}

/// The reader's state after the given lines, starting outside any section.
pub open spec fn scan_lines(lines: Seq<Seq<char>>, section: Seq<char>) -> (
    Seq<char>,
    Map<Seq<char>, Seq<char>>,
)
    decreases lines.len(),
{
    if lines.len() == 0 {
        (Seq::<char>::empty(), Map::<Seq<char>, Seq<char>>::empty())
    } else {
        scan_line(scan_lines(lines.drop_last(), section), lines.last(), section)
    }
}

/// The pairs of `section` in `content`: for a key given twice, the later
/// value.
pub open spec fn toml_section(content: Seq<char>, section: Seq<char>) -> Map<
    Seq<char>,
    Seq<char>,
> {
    scan_lines(raw_lines(content), section).1
}

/// The items of an inline array, from the pieces between its commas:
/// the pieces that are not blank, each read as a value.
pub open spec fn array_items(pieces: Seq<Seq<char>>) -> Seq<Seq<char>>
    decreases pieces.len(),
{
    if pieces.len() == 0 {
        Seq::<Seq<char>>::empty()
    } else {
        let r = array_items(pieces.drop_last());
        let t = trim(pieces.last());
        if t.len() == 0 {
            r
        } else {
            r.push(toml_value(t))
        }
    }
}

/// The items of an inline array such as `["A", "B"]`.
pub open spec fn toml_array(value: Seq<char>) -> Seq<Seq<char>> {
    array_items(split_on(strip_trailing(strip_leading(trim(value), '['), ']'), ','))
}

/// The map that a list of pairs stands for, a later pair winning over an
/// earlier one with the same key.
pub open spec fn pairs_map(es: Seq<(String, String)>) -> Map<Seq<char>, Seq<char>>
    decreases es.len(),
{
    if es.len() == 0 {
        Map::<Seq<char>, Seq<char>>::empty()
    } else {
        pairs_map(es.drop_last()).insert(es.last().0@, es.last().1@)
    }
}

pub open spec fn distinct_keys(es: Seq<(String, String)>) -> bool {
    forall|i: int, j: int| 0 <= i < j < es.len() ==> es[i].0@ != es[j].0@
}

/// The pairs of one section, each key once.
pub struct TomlSection {
    entries: Vec<(String, String)>,
}

impl View for TomlSection {
    type V = Map<Seq<char>, Seq<char>>;

    closed spec fn view(&self) -> Map<Seq<char>, Seq<char>> {
        pairs_map(self.entries@)
    }
}

proof fn lemma_pairs_map_dom(es: Seq<(String, String)>, k: Seq<char>)
    ensures
        pairs_map(es).dom().contains(k) <==> exists|i: int| 0 <= i < es.len() && es[i].0@ == k,
    decreases es.len(),
{
    if es.len() > 0 {
        lemma_pairs_map_dom(es.drop_last(), k);
        if pairs_map(es.drop_last()).dom().contains(k) {
            let i = choose|i: int| 0 <= i < es.len() - 1 && es.drop_last()[i].0@ == k;
            assert(es[i].0@ == k);
        }
        if exists|i: int| 0 <= i < es.len() && es[i].0@ == k {
            let i = choose|i: int| 0 <= i < es.len() && es[i].0@ == k;
            if i < es.len() - 1 {
                assert(es.drop_last()[i].0@ == k);
            }
        }
    }
}

proof fn lemma_pairs_map_index(es: Seq<(String, String)>, i: int)
    requires
        distinct_keys(es),
        0 <= i < es.len(),
    ensures
        pairs_map(es).dom().contains(es[i].0@),
        pairs_map(es)[es[i].0@] == es[i].1@,
    decreases es.len(),
{
    if i < es.len() - 1 {
        assert(es.drop_last()[i] == es[i]);
        lemma_pairs_map_index(es.drop_last(), i);
    }
}

proof fn lemma_pairs_map_update(es: Seq<(String, String)>, i: int, e: (String, String))
    requires
        distinct_keys(es),
        0 <= i < es.len(),
        es[i].0@ == e.0@,
    ensures
        pairs_map(es.update(i, e)) == pairs_map(es).insert(e.0@, e.1@),
        distinct_keys(es.update(i, e)),
    decreases es.len(),
{
    let u = es.update(i, e);
    if i == es.len() - 1 {
        assert(u.drop_last() =~= es.drop_last());
        assert(pairs_map(u) =~= pairs_map(es).insert(e.0@, e.1@));
    } else {
        assert(u.drop_last() =~= es.drop_last().update(i, e));
        lemma_pairs_map_update(es.drop_last(), i, e);
        assert(es.last().0@ != e.0@);
        assert(pairs_map(u) =~= pairs_map(es).insert(e.0@, e.1@));
    }
}

impl TomlSection {
    /// Each key occurs once.
    #[verifier::type_invariant]
    closed spec fn keys_distinct(self) -> bool {
        distinct_keys(self.entries@)
    }

    /// A section with no pairs.
    pub fn new() -> (t: TomlSection)
        ensures
            t@ == Map::<Seq<char>, Seq<char>>::empty(),
    {
        TomlSection { entries: Vec::new() }
    }

    /// Sets `key` to `value`, replacing an earlier value of the key.
    pub fn insert(&mut self, key: String, value: String)
        ensures
            final(self)@ == old(self)@.insert(key@, value@),
    {
        proof {
            use_type_invariant(&*self);
        }
        let mut entries: Vec<(String, String)> = Vec::new();
        std::mem::swap(&mut entries, &mut self.entries);
        let mut i: usize = 0;
        while i < entries.len()
            invariant
                distinct_keys(entries@),
                entries@ == old(self).entries@,
                i <= entries@.len(),
                forall|j: int| 0 <= j < i ==> entries@[j].0@ != key@,
            decreases entries.len() - i,
        {
            if entries[i].0 == key {
                proof {
                    lemma_pairs_map_update(entries@, i as int, (key, value));
                }
                entries.set(i, (key, value));
                self.entries = entries;
                return;
            }
            i = i + 1;
        }
        let ghost prev = entries@;
        entries.push((key, value));
        assert(entries@.drop_last() =~= prev);
        self.entries = entries;
    }

    /// The value of `key`, if the section has one.
    pub fn get(&self, key: &str) -> (r: Option<String>)
        ensures
            r matches Some(v) ==> self@.dom().contains(key@) && self@[key@] == v@,
            r is None ==> !self@.dom().contains(key@),
    {
        proof {
            use_type_invariant(self);
        }
        let k = String::from_str(key);
        let mut i: usize = 0;
        while i < self.entries.len()
            invariant
                distinct_keys(self.entries@),
                k@ == key@,
                i <= self.entries@.len(),
                forall|j: int| 0 <= j < i ==> self.entries@[j].0@ != key@,
            decreases self.entries.len() - i,
        {
            if self.entries[i].0 == k {
                proof {
                    lemma_pairs_map_index(self.entries@, i as int);
                }
                return Some(self.entries[i].1.clone());
            }
            i = i + 1;
        }
        proof {
            lemma_pairs_map_dom(self.entries@, key@);
        }
        None
    }

    /// The number of keys.
    pub fn len(&self) -> (n: usize)
        ensures
            n == self@.dom().len(),
    {
        proof {
            use_type_invariant(self);
            lemma_pairs_map_len(self.entries@);
        }
        self.entries.len()
    }
}

proof fn lemma_pairs_map_len(es: Seq<(String, String)>)
    requires
        distinct_keys(es),
    ensures
        pairs_map(es).dom().finite(),
        pairs_map(es).dom().len() == es.len(),
    decreases es.len(),
{
    if es.len() > 0 {
        lemma_pairs_map_len(es.drop_last());
        lemma_pairs_map_dom(es.drop_last(), es.last().0@);
        if pairs_map(es.drop_last()).dom().contains(es.last().0@) {
            let i = choose|i: int|
                0 <= i < es.len() - 1 && es.drop_last()[i].0@ == es.last().0@;
            assert(es[i].0@ == es[es.len() - 1].0@);
        }
    }
}

/// The bounds of the value read from `cs[from..to]`.
fn toml_value_bounds(cs: &[char], from: usize, to: usize) -> (r: (usize, usize))
    requires
        from <= to <= cs@.len(),
    ensures
        from <= r.0 <= r.1 <= to,
        cs@.subrange(r.0 as int, r.1 as int) == toml_value(cs@.subrange(from as int, to as int)),
{
    let (a, b) = trim_bounds(cs, from, to);
    let ghost t = cs@.subrange(a as int, b as int);
    if b - a >= 2 && cs[a] == '"' && cs[b - 1] == '"' {
        assert(t.subrange(1, t.len() - 1) =~= cs@.subrange(a + 1, b - 1));
        (a + 1, b - 1)
    } else {
        (a, b)
    }
}

/// Trims a value and removes the double quotes around it, if it has both.
pub fn trim_toml_string(value: &str) -> (s: String)
    ensures
        s@ == toml_value(value@),
{
    let cs = chars_of(value);
    let (a, b) = toml_value_bounds(cs.as_slice(), 0, cs.len());
    assert(cs@.subrange(0, cs@.len() as int) =~= cs@);
    string_of_range(cs.as_slice(), a, b)
}

proof fn lemma_scan_lines_empty_last(lines: Seq<Seq<char>>, section: Seq<char>)
    requires
        lines.len() > 0,
        lines.last().len() == 0,
    ensures
        scan_lines(lines, section) == scan_lines(lines.drop_last(), section),
{
    assert(trim_start(lines.last()) == lines.last());
}

/// The `key = value` pairs of `section` in `content`.
pub fn parse_toml_section(content: &str, section: &str) -> (t: TomlSection)
    ensures
        t@ == toml_section(content@, section@),
{
    let cs = chars_of(content);
    let wanted = chars_of(section);
    let pieces = split_chars(cs.as_slice(), '\n');
    let ghost lines = split_on(content@, '\n');
    let mut current: Vec<char> = Vec::new();
    let mut values = TomlSection::new();
    let mut k: usize = 0;
    while k < pieces.len()
        invariant
            k <= pieces@.len(),
            pieces@.len() == lines.len(),
            forall|i: int| 0 <= i < pieces@.len() ==> #[trigger] pieces@[i]@ == lines[i],
            wanted@ == section@,
            (current@, values@) == scan_lines(lines.take(k as int), section@),
        decreases pieces.len() - k,
    {
        let piece = pieces[k].as_slice();
        let ghost raw = lines[k as int];
        assert(piece@ == raw);
        assert(lines.take(k + 1).drop_last() =~= lines.take(k as int));
        assert(lines.take(k + 1).last() == raw);
        let ghost line = trim(raw);
        let (a, b) = trim_bounds(piece, 0, piece.len());
        assert(piece@.subrange(0, piece@.len() as int) =~= raw);
        assert(piece@.subrange(a as int, b as int) == line);
        if a == b || piece[a] == '#' {
        } else if piece[a] == '[' && piece[b - 1] == ']' {
            let la = strip_leading_bound(piece, a, b, '[');
            let lb = strip_trailing_bound(piece, la, b, ']');
            current = vec_of_range(piece, la, lb);
        } else if !chars_eq(current.as_slice(), wanted.as_slice()) {
        } else {
            match find_char(piece, a, b, '=') {
                Some(i) => {
                    proof {
                        lemma_first_index_bounds(line, '=');
                    }
                    let (ka, kb) = trim_bounds(piece, a, a + i);
                    let (va, vb) = trim_bounds(piece, a + i + 1, b);
                    let (xa, xb) = toml_value_bounds(piece, va, vb);
                    assert(line.take(i as int) =~= piece@.subrange(a as int, a + i));
                    assert(line.skip(i + 1) =~= piece@.subrange(a + i + 1, b as int));
                    let key = string_of_range(piece, ka, kb);
                    let value = string_of_range(piece, xa, xb);
                    values.insert(key, value);
                },
                None => {},
            }
        }
        k = k + 1;
    }
    assert(lines.take(lines.len() as int) =~= lines);
    proof {
        lemma_split_on_len(content@, '\n');
        if lines.last().len() == 0 {
            lemma_scan_lines_empty_last(lines, section@);
        }
    }
    values
}

/// The items of an inline array such as `["A", "B"]`: the pieces between
/// the commas that are not blank, each trimmed and unquoted.
pub fn parse_array(value: &str) -> (items: Vec<String>)
    ensures
        strings_view(items@) == toml_array(value@),
{
    let cs = chars_of(value);
    let (a, b) = trim_bounds(cs.as_slice(), 0, cs.len());
    assert(cs@.subrange(0, cs@.len() as int) =~= cs@);
    let la = strip_leading_bound(cs.as_slice(), a, b, '[');
    let lb = strip_trailing_bound(cs.as_slice(), la, b, ']');
    let inner = vec_of_range(cs.as_slice(), la, lb);
    let pieces = split_chars(inner.as_slice(), ',');
    let ghost ps = split_on(inner@, ',');
    let mut items: Vec<String> = Vec::new();
    let mut k: usize = 0;
    while k < pieces.len()
        invariant
            k <= pieces@.len(),
            pieces@.len() == ps.len(),
            forall|i: int| 0 <= i < pieces@.len() ==> #[trigger] pieces@[i]@ == ps[i],
            items@.len() == array_items(ps.take(k as int)).len(),
            forall|i: int|
                0 <= i < items@.len() ==> #[trigger] items@[i]@ == array_items(ps.take(k as int))[i],
        decreases pieces.len() - k,
    {
        let piece = pieces[k].as_slice();
        assert(ps.take(k + 1).drop_last() =~= ps.take(k as int));
        assert(piece@.subrange(0, piece@.len() as int) =~= ps[k as int]);
        let (ta, tb) = trim_bounds(piece, 0, piece.len());
        if ta < tb {
            let (xa, xb) = toml_value_bounds(piece, ta, tb);
            let item = string_of_range(piece, xa, xb);
            items.push(item);
        }
        k = k + 1;
    }
    assert(ps.take(ps.len() as int) =~= ps);
    assert(strings_view(items@) =~= toml_array(value@));
    items
}

/// The line `[name]` that opens a section.
pub open spec fn header_line(name: Seq<char>) -> Seq<char> {
    seq!['['] + name + seq![']']
}

/// The line `key = "value"`.
pub open spec fn pair_line(key: Seq<char>, value: Seq<char>) -> Seq<char> {
    key + seq![' ', '=', ' ', '"'] + value + seq!['"']
}

/// The lines of a section: its header, then one line per pair.
pub open spec fn section_lines(name: Seq<char>, pairs: Seq<(Seq<char>, Seq<char>)>) -> Seq<
    Seq<char>,
> {
    seq![header_line(name)] + pairs.map_values(|p: (Seq<char>, Seq<char>)| pair_line(p.0, p.1))
}

/// The text of a section with the given pairs, in order.
pub open spec fn render_section(name: Seq<char>, pairs: Seq<(Seq<char>, Seq<char>)>) -> Seq<char> {
    join_lines(section_lines(name, pairs))
}

/// The map that pairs given in order stand for, a later pair winning.
pub open spec fn pairs_to_map(pairs: Seq<(Seq<char>, Seq<char>)>) -> Map<Seq<char>, Seq<char>>
    decreases pairs.len(),
{
    if pairs.len() == 0 {
        Map::<Seq<char>, Seq<char>>::empty()
    } else {
        pairs_to_map(pairs.drop_last()).insert(pairs.last().0, pairs.last().1)
    }
}

/// A section name that its header gives back: on one line, and neither
/// starting with `[` nor ending with `]`.
pub open spec fn plain_name(name: Seq<char>) -> bool {
    &&& lacks(name, '\n')
    &&& name.len() > 0 ==> name[0] != '[' && name.last() != ']'
}

/// A key that its line gives back: not empty, on one line, without `=`,
/// not starting with `#`, and without whitespace at either end.
pub open spec fn plain_key(key: Seq<char>) -> bool {
    &&& key.len() > 0
    &&& lacks(key, '\n')
    &&& lacks(key, '=')
    &&& key[0] != '#'
    &&& !is_ws(key[0])
    &&& !is_ws(key.last())
}

proof fn lemma_header_line(name: Seq<char>, section: Seq<char>, st: (Seq<char>, Map<Seq<char>, Seq<char>>))
    requires
        plain_name(name),
    ensures
        scan_line(st, header_line(name), section) == (name, st.1),
        lacks(header_line(name), '\n'),
{
    let h = header_line(name);
    lemma_trim_noop(h);
    assert(h.drop_first() =~= name + seq![']']);
    let rest = name + seq![']'];
    assert(strip_leading(h, '[') == strip_leading(rest, '['));
    assert(strip_leading(rest, '[') == rest);
    assert(rest.drop_last() =~= name);
    assert(strip_trailing(rest, ']') == strip_trailing(name, ']'));
    assert(strip_trailing(name, ']') == name);
}

proof fn lemma_pair_line(
    key: Seq<char>,
    value: Seq<char>,
    section: Seq<char>,
    st: (Seq<char>, Map<Seq<char>, Seq<char>>),
)
    requires
        plain_key(key),
        lacks(value, '\n'),
    ensures
        st.0 == section ==> scan_line(st, pair_line(key, value), section) == (
            st.0,
            st.1.insert(key, value),
        ),
        st.0 != section ==> scan_line(st, pair_line(key, value), section) == st,
        lacks(pair_line(key, value), '\n'),
{
    let line = pair_line(key, value);
    let n: int = key.len() as int;
    lemma_trim_noop(line);
    assert(line[0] == key[0]);
    // The first `=` follows the key and a space.
    let head = line.take(n + 2);
    assert(head.drop_last() =~= key + seq![' ']);
    lemma_first_index_none(key + seq![' '], '=');
    assert(first_index(head, '=') == Some(n + 1));
    lemma_first_index_prefix(line, n + 2, '=');
    let k = line.take(n + 1);
    let v = line.skip(n + 2);
    assert(k =~= key + seq![' ']);
    assert(v =~= seq![' ', '"'] + value + seq!['"']);
    // The key without its space.
    assert(trim_start(k) == k);
    assert(k.drop_last() =~= key);
    lemma_trim_noop(key);
    assert(trim(k) == key);
    // The value without its space and quotes.
    let q = seq!['"'] + value + seq!['"'];
    assert(v.drop_first() =~= q);
    lemma_trim_noop(q);
    assert(trim_start(v) == q);
    assert(trim(v) == q);
    assert(q.subrange(1, q.len() - 1) =~= value);
    assert(toml_value(q) == value);
}

/// The reader's state after `lines`, starting from `st`.
pub open spec fn scan_from(
    st: (Seq<char>, Map<Seq<char>, Seq<char>>),
    lines: Seq<Seq<char>>,
    section: Seq<char>,
) -> (Seq<char>, Map<Seq<char>, Seq<char>>)
    decreases lines.len(),
{
    if lines.len() == 0 {
        st
    } else {
        scan_line(scan_from(st, lines.drop_last(), section), lines.last(), section)
    }
}

/// The pairs inserted into `m`, in order.
pub open spec fn pairs_into(m: Map<Seq<char>, Seq<char>>, pairs: Seq<(Seq<char>, Seq<char>)>) -> Map<
    Seq<char>,
    Seq<char>,
>
    decreases pairs.len(),
{
    if pairs.len() == 0 {
        m
    } else {
        pairs_into(m, pairs.drop_last()).insert(pairs.last().0, pairs.last().1)
    }
}

proof fn lemma_pairs_into_empty(pairs: Seq<(Seq<char>, Seq<char>)>)
    ensures
        pairs_into(Map::<Seq<char>, Seq<char>>::empty(), pairs) == pairs_to_map(pairs),
    decreases pairs.len(),
{
    if pairs.len() > 0 {
        lemma_pairs_into_empty(pairs.drop_last());
    }
}

proof fn lemma_scan_lines_from(lines: Seq<Seq<char>>, section: Seq<char>)
    ensures
        scan_lines(lines, section) == scan_from(
            (Seq::<char>::empty(), Map::<Seq<char>, Seq<char>>::empty()),
            lines,
            section,
        ),
    decreases lines.len(),
{
    if lines.len() > 0 {
        lemma_scan_lines_from(lines.drop_last(), section);
    }
}

proof fn lemma_scan_from_concat(
    st: (Seq<char>, Map<Seq<char>, Seq<char>>),
    a: Seq<Seq<char>>,
    b: Seq<Seq<char>>,
    section: Seq<char>,
)
    ensures
        scan_from(st, a + b, section) == scan_from(scan_from(st, a, section), b, section),
    decreases b.len(),
{
    if b.len() == 0 {
        assert(a + b =~= a);
    } else {
        assert((a + b).drop_last() =~= a + b.drop_last());
        lemma_scan_from_concat(st, a, b.drop_last(), section);
    }
}

/// Whether the pairs come back unchanged from their lines.
pub open spec fn plain_pairs(pairs: Seq<(Seq<char>, Seq<char>)>) -> bool {
    forall|i: int| 0 <= i < pairs.len() ==> plain_key(#[trigger] pairs[i].0) && lacks(pairs[i].1, '\n')
}

proof fn lemma_scan_section_from(
    st: (Seq<char>, Map<Seq<char>, Seq<char>>),
    name: Seq<char>,
    pairs: Seq<(Seq<char>, Seq<char>)>,
    section: Seq<char>,
)
    requires
        plain_name(name),
        plain_pairs(pairs),
    ensures
        scan_from(st, section_lines(name, pairs), section) == (
            name,
            if name == section {
                pairs_into(st.1, pairs)
            } else {
                st.1
            },
        ),
        forall|i: int|
            0 <= i < section_lines(name, pairs).len() ==> lacks(
                #[trigger] section_lines(name, pairs)[i],
                '\n',
            ),
    decreases pairs.len(),
{
    let ls = section_lines(name, pairs);
    if pairs.len() == 0 {
        assert(ls =~= seq![header_line(name)]);
        assert(ls.drop_last() =~= Seq::<Seq<char>>::empty());
        lemma_header_line(name, section, st);
        assert(ls.last() == header_line(name));
        assert(scan_from(st, ls, section) == scan_line(scan_from(st, ls.drop_last(), section), ls.last(), section));
        assert(pairs_into(st.1, pairs) == st.1);
    } else {
        let pre = pairs.drop_last();
        assert forall|i: int| 0 <= i < pre.len() implies plain_key(#[trigger] pre[i].0) && lacks(
            pre[i].1,
            '\n',
        ) by {
            assert(pre[i] == pairs[i]);
        }
        lemma_scan_section_from(st, name, pre, section);
        assert(ls.drop_last() =~= section_lines(name, pre));
        let p = pairs.last();
        assert(plain_key(pairs[pairs.len() - 1].0));
        assert(ls.last() == pair_line(p.0, p.1));
        lemma_pair_line(p.0, p.1, section, scan_from(st, section_lines(name, pre), section));
        assert(scan_from(st, ls, section) == scan_line(scan_from(st, ls.drop_last(), section), ls.last(), section));
        assert(pairs_into(st.1, pairs) == pairs_into(st.1, pre).insert(p.0, p.1));
        assert forall|i: int| 0 <= i < ls.len() implies lacks(#[trigger] ls[i], '\n') by {
            if i < ls.len() - 1 {
                assert(ls[i] == section_lines(name, pre)[i]);
            }
        }
    }
}

proof fn lemma_render_lines(ls: Seq<Seq<char>>, a: Seq<Seq<char>>, b: Seq<Seq<char>>)
    requires
        ls == a + b,
        forall|i: int| 0 <= i < a.len() ==> lacks(#[trigger] a[i], '\n'),
        forall|i: int| 0 <= i < b.len() ==> lacks(#[trigger] b[i], '\n'),
    ensures
        raw_lines(join_lines(ls)) == ls,
{
    assert forall|i: int| 0 <= i < ls.len() implies lacks(#[trigger] ls[i], '\n') by {
        if i < a.len() {
            assert(ls[i] == a[i]);
        } else {
            assert(ls[i] == b[i - a.len()]);
        }
    }
    lemma_raw_lines_join(ls);
}

/// Reading back a written section: the section `[name]` with the pairs
/// `key = "value"`, one per line, reads as those pairs (a later one winning
/// for a key given twice), provided the name, the keys and the values come
/// back unchanged from their lines.
pub proof fn law_section_round_trip(name: Seq<char>, pairs: Seq<(Seq<char>, Seq<char>)>)
    requires
        plain_name(name),
        plain_pairs(pairs),
    ensures
        toml_section(render_section(name, pairs), name) == pairs_to_map(pairs),
{
    let st = (Seq::<char>::empty(), Map::<Seq<char>, Seq<char>>::empty());
    lemma_scan_section_from(st, name, pairs, name);
    lemma_raw_lines_join(section_lines(name, pairs));
    lemma_scan_lines_from(section_lines(name, pairs), name);
    lemma_pairs_into_empty(pairs);
}

/// Other sections do not count: a section reads the same with another
/// section written before it or after it.
pub proof fn law_other_sections_ignored(
    name: Seq<char>,
    pairs: Seq<(Seq<char>, Seq<char>)>,
    other: Seq<char>,
    other_pairs: Seq<(Seq<char>, Seq<char>)>,
)
    requires
        plain_name(name),
        plain_pairs(pairs),
        plain_name(other),
        plain_pairs(other_pairs),
        other != name,
    ensures
        toml_section(join_lines(section_lines(other, other_pairs) + section_lines(name, pairs)), name)
            == pairs_to_map(pairs),
        toml_section(join_lines(section_lines(name, pairs) + section_lines(other, other_pairs)), name)
            == pairs_to_map(pairs),
{
    let st = (Seq::<char>::empty(), Map::<Seq<char>, Seq<char>>::empty());
    let a = section_lines(other, other_pairs);
    let b = section_lines(name, pairs);
    lemma_scan_section_from(st, other, other_pairs, name);
    lemma_scan_section_from(st, name, pairs, name);
    let after_other = scan_from(st, a, name);
    let after_name = scan_from(st, b, name);
    lemma_scan_section_from(after_other, name, pairs, name);
    lemma_scan_section_from(after_name, other, other_pairs, name);
    lemma_pairs_into_empty(pairs);
    lemma_render_lines(a + b, a, b);
    lemma_render_lines(b + a, b, a);
    lemma_scan_lines_from(a + b, name);
    lemma_scan_lines_from(b + a, name);
    lemma_scan_from_concat(st, a, b, name);
    lemma_scan_from_concat(st, b, a, name);
}

/// An item in double quotes.
pub open spec fn quoted(item: Seq<char>) -> Seq<char> {
    seq!['"'] + item + seq!['"']
}

/// The inline array of the items: `["a","b"]`.
pub open spec fn render_array(items: Seq<Seq<char>>) -> Seq<char> {
    seq!['['] + join_with(items.map_values(|x: Seq<char>| quoted(x)), ',') + seq![']']
}

proof fn lemma_join_with_ends(ps: Seq<Seq<char>>, sep: char)
    requires
        ps.len() > 0,
        forall|i: int| 0 <= i < ps.len() ==> (#[trigger] ps[i]).len() > 0,
    ensures
        join_with(ps, sep).len() > 0,
        join_with(ps, sep)[0] == ps[0][0],
        join_with(ps, sep).last() == ps.last().last(),
    decreases ps.len(),
{
    if ps.len() > 1 {
        let pre = ps.drop_last();
        assert(pre[0] == ps[0]);
        assert forall|i: int| 0 <= i < pre.len() implies (#[trigger] pre[i]).len() > 0 by {
            assert(pre[i] == ps[i]);
        }
        lemma_join_with_ends(pre, sep);
        assert(ps[ps.len() - 1].len() > 0);
    }
}

proof fn lemma_split_join_with(ps: Seq<Seq<char>>, sep: char)
    requires
        ps.len() > 0,
        forall|i: int| 0 <= i < ps.len() ==> lacks(#[trigger] ps[i], sep),
    ensures
        split_on(join_with(ps, sep), sep) == ps,
    decreases ps.len(),
{
    let e = Seq::<char>::empty();
    if ps.len() == 1 {
        assert(ps[0] =~= e + ps[0]);
        lemma_split_on_append_plain(e, ps[0], sep);
        assert(split_on(e, sep) =~= seq![e]);
        assert(split_on(join_with(ps, sep), sep) =~= ps);
    } else {
        let pre = ps.drop_last();
        assert forall|i: int| 0 <= i < pre.len() implies lacks(#[trigger] pre[i], sep) by {
            assert(pre[i] == ps[i]);
        }
        lemma_split_join_with(pre, sep);
        let j = join_with(pre, sep).push(sep);
        assert(j.drop_last() =~= join_with(pre, sep));
        assert(split_on(j, sep) == pre.push(e));
        assert(lacks(ps[ps.len() - 1], sep));
        lemma_split_on_append_plain(j, ps.last(), sep);
        assert(e + ps.last() =~= ps.last());
        assert(split_on(join_with(ps, sep), sep) =~= ps);
    }
}

proof fn lemma_array_items_quoted(items: Seq<Seq<char>>)
    ensures
        array_items(items.map_values(|x: Seq<char>| quoted(x))) == items,
    decreases items.len(),
{
    let qs = items.map_values(|x: Seq<char>| quoted(x));
    if items.len() > 0 {
        let pre = items.drop_last();
        lemma_array_items_quoted(pre);
        assert(qs.drop_last() =~= pre.map_values(|x: Seq<char>| quoted(x)));
        let q = quoted(items.last());
        assert(qs.last() == q);
        lemma_trim_noop(q);
        assert(q.subrange(1, q.len() - 1) =~= items.last());
        assert(array_items(qs) =~= items);
    } else {
        assert(qs =~= Seq::<Seq<char>>::empty());
    }
}

/// Reading back a written inline array: `["a","b"]` reads as its items,
/// provided no item holds a comma.
pub proof fn law_array_round_trip(items: Seq<Seq<char>>)
    requires
        forall|i: int| 0 <= i < items.len() ==> lacks(#[trigger] items[i], ','),
    ensures
        toml_array(render_array(items)) == items,
{
    let qs = items.map_values(|x: Seq<char>| quoted(x));
    let j = join_with(qs, ',');
    let s = render_array(items);
    lemma_trim_noop(s);
    assert(s.drop_first() =~= j + seq![']']);
    let rest = j + seq![']'];
    assert(rest.drop_last() =~= j);
    if items.len() == 0 {
        assert(qs =~= Seq::<Seq<char>>::empty());
        assert(j =~= Seq::<char>::empty());
        assert(strip_leading(rest, '[') == rest);
        assert(split_on(j, ',') =~= seq![Seq::<char>::empty()]);
        assert(seq![Seq::<char>::empty()].drop_last() =~= Seq::<Seq<char>>::empty());
        assert(trim(s) == s);
        assert(strip_leading(s, '[') == strip_leading(rest, '['));
        assert(strip_trailing(rest, ']') == strip_trailing(j, ']'));
        assert(strip_trailing(j, ']') == j);
        let ps = split_on(j, ',');
        assert(ps.len() == 1 && ps.last() == Seq::<char>::empty());
        assert(trim_start(ps.last()) == ps.last());
        assert(array_items(ps) == array_items(ps.drop_last()));
        assert(toml_array(s) =~= items);
    } else {
        assert forall|i: int| 0 <= i < qs.len() implies (#[trigger] qs[i]).len() > 0 by {}
        lemma_join_with_ends(qs, ',');
        assert(qs[0][0] == '"');
        assert(qs.last().last() == '"');
        assert(strip_leading(rest, '[') == rest);
        assert(strip_trailing(j, ']') == j);
        assert forall|i: int| 0 <= i < qs.len() implies lacks(#[trigger] qs[i], ',') by {
            assert(lacks(items[i], ','));
            assert forall|k: int| 0 <= k < qs[i].len() implies qs[i][k] != ',' by {
                if 0 < k < qs[i].len() - 1 {
                    assert(qs[i][k] == items[i][k - 1]);
                }
            }
        }
        lemma_split_join_with(qs, ',');
        lemma_array_items_quoted(items);
    }
}

proof fn lemma_scan_raw_lines(x: Seq<char>, section: Seq<char>)
    ensures
        scan_lines(raw_lines(x), section) == scan_lines(split_on(x, '\n'), section),
{
    lemma_split_on_len(x, '\n');
    let ps = split_on(x, '\n');
    if ps.last().len() == 0 {
        lemma_scan_lines_empty_last(ps, section);
    }
}

proof fn lemma_scan_from_no_headers(
    st: (Seq<char>, Map<Seq<char>, Seq<char>>),
    lines: Seq<Seq<char>>,
    section: Seq<char>,
)
    requires
        st.0 != section,
        forall|i: int| 0 <= i < lines.len() ==> !is_header(trim(#[trigger] lines[i])),
    ensures
        scan_from(st, lines, section) == st,
    decreases lines.len(),
{
    if lines.len() > 0 {
        let pre = lines.drop_last();
        assert forall|i: int| 0 <= i < pre.len() implies !is_header(trim(#[trigger] pre[i])) by {
            assert(pre[i] == lines[i]);
        }
        lemma_scan_from_no_headers(st, pre, section);
        assert(!is_header(trim(lines[lines.len() - 1])));
    }
}

/// Lines under another section never change what a section reads as: a
/// header `[other]` for another section, followed by any lines none of
/// which opens a section, leaves the reading of what comes before it as it
/// is.
pub proof fn law_lines_under_other_section_ignored(
    content: Seq<char>,
    other: Seq<char>,
    rest: Seq<char>,
    section: Seq<char>,
)
    requires
        plain_name(other),
        other != section,
        forall|i: int|
            0 <= i < split_on(rest, '\n').len() ==> !is_header(trim(#[trigger] split_on(rest, '\n')[i])),
    ensures
        toml_section(content + seq!['\n'] + header_line(other) + seq!['\n'] + rest, section)
            == toml_section(content, section),
{
    let h = header_line(other);
    let tail = h + seq!['\n'] + rest;
    let s = content + seq!['\n'] + h + seq!['\n'] + rest;
    assert(s =~= content + seq!['\n'] + tail);
    lemma_split_on_concat(content, tail, '\n');
    lemma_split_on_concat(h, rest, '\n');
    let e = Seq::<char>::empty();
    lemma_header_line(other, section, (e, Map::<Seq<char>, Seq<char>>::empty()));
    assert(lacks(h, '\n'));
    lemma_split_on_append_plain(e, h, '\n');
    assert(e + h =~= h);
    assert(split_on(e, '\n') =~= seq![e]);
    assert(split_on(h, '\n') =~= seq![h]);
    let a = split_on(content, '\n');
    let b = split_on(rest, '\n');
    assert(split_on(s, '\n') =~= a + (seq![h] + b));
    let init = (e, Map::<Seq<char>, Seq<char>>::empty());
    lemma_scan_raw_lines(s, section);
    lemma_scan_raw_lines(content, section);
    lemma_scan_lines_from(a + (seq![h] + b), section);
    lemma_scan_lines_from(a, section);
    lemma_scan_from_concat(init, a, seq![h] + b, section);
    let mid = scan_from(init, a, section);
    lemma_scan_from_concat(mid, seq![h], b, section);
    lemma_header_line(other, section, mid);
    assert(seq![h].drop_last() =~= Seq::<Seq<char>>::empty());
    assert(seq![h].last() == h);
    assert(scan_from(mid, Seq::<Seq<char>>::empty(), section) == mid);
    assert(scan_from(mid, seq![h], section) == scan_line(mid, h, section));
    assert(scan_from(mid, seq![h], section) == (other, mid.1));
    lemma_scan_from_no_headers((other, mid.1), b, section);
}

} // verus!
