//! Character-level text handling: whitespace, trimming, splitting and
//! conversion between `str` and vectors of characters.
use vstd::prelude::*;
use vstd::string::*;

verus! {

/// The characters that carry the Unicode `White_Space` property, which is
/// what `char::is_whitespace` and `str::trim` go by.
pub open spec fn is_ws(c: char) -> bool {
    ||| ('\u{9}' <= c && c <= '\u{d}')
    ||| c == ' '
    ||| c == '\u{85}'
    ||| c == '\u{a0}'
    ||| c == '\u{1680}'
    ||| ('\u{2000}' <= c && c <= '\u{200a}')
    ||| c == '\u{2028}'
    ||| c == '\u{2029}'
    ||| c == '\u{202f}'
    ||| c == '\u{205f}'
    ||| c == '\u{3000}'
}

/// `s` without its leading whitespace.
pub open spec fn trim_start(s: Seq<char>) -> Seq<char>
    decreases s.len(),
{
    if s.len() > 0 && is_ws(s[0]) {
        trim_start(s.drop_first())
    } else {
        s
    }
}

/// `s` without its trailing whitespace.
pub open spec fn trim_end(s: Seq<char>) -> Seq<char>
    decreases s.len(),
{
    if s.len() > 0 && is_ws(s.last()) {
        trim_end(s.drop_last())
    } else {
        s
    }
}

/// `s` without leading and trailing whitespace, as `str::trim` gives it.
pub open spec fn trim(s: Seq<char>) -> Seq<char> {
    trim_end(trim_start(s))
}

/// `s` without all the leading copies of `c` (`str::trim_start_matches`).
pub open spec fn strip_leading(s: Seq<char>, c: char) -> Seq<char>
    decreases s.len(),
{
    if s.len() > 0 && s[0] == c {
        strip_leading(s.drop_first(), c)
    } else {
        s
    }
}

/// `s` without all the trailing copies of `c` (`str::trim_end_matches`).
pub open spec fn strip_trailing(s: Seq<char>, c: char) -> Seq<char>
    decreases s.len(),
{
    if s.len() > 0 && s.last() == c {
        strip_trailing(s.drop_last(), c)
    } else {
        s
    }
}

/// A sequence of strings as character sequences.
pub open spec fn strings_view(v: Seq<String>) -> Seq<Seq<char>> {
    v.map_values(|x: String| x@)
}

/// The pieces of `s` between the occurrences of `sep`, as `str::split`
/// gives them for a single character: always one piece more than there are
/// separators.
pub open spec fn split_on(s: Seq<char>, sep: char) -> Seq<Seq<char>>
    decreases s.len(),
{
    if s.len() == 0 {
        seq![Seq::<char>::empty()]
    } else {
        let r = split_on(s.drop_last(), sep);
        if s.last() == sep {
            r.push(Seq::<char>::empty())
        } else {
            r.update(r.len() - 1, r.last().push(s.last()))
        }
    }
}

/// The lines of `s` as `str::lines` yields them, before any trimming: the
/// pieces between line feeds, without the last piece when it is empty.
/// (`str::lines` also drops a carriage return before each line feed; every
/// use in this crate trims the lines, which removes it as well.)
pub open spec fn raw_lines(s: Seq<char>) -> Seq<Seq<char>> {
    let pieces = split_on(s, '\n');
    if pieces.last().len() == 0 {
        pieces.drop_last()
    } else {
        pieces
    }
}

/// The index of the first occurrence of `c` in `s`, if any.
pub open spec fn first_index(s: Seq<char>, c: char) -> Option<int>
    decreases s.len(),
{
    if s.len() == 0 {
        None
    } else {
        match first_index(s.drop_last(), c) {
            Some(i) => Some(i),
            None => if s.last() == c {
                Some(s.len() - 1)
            } else {
                None
            },
        }
    }
}

/// `str::split_once` for a single character: the text before and after the
/// first occurrence of `c`.
pub open spec fn split_once(s: Seq<char>, c: char) -> Option<(Seq<char>, Seq<char>)> {
    match first_index(s, c) {
        Some(i) => Some((s.take(i), s.skip(i + 1))),
        None => None,
    }
}

pub proof fn lemma_split_on_len(s: Seq<char>, sep: char)
    ensures
        split_on(s, sep).len() >= 1,
    decreases s.len(),
{
    if s.len() > 0 {
        lemma_split_on_len(s.drop_last(), sep);
    }
}

pub proof fn lemma_first_index_bounds(s: Seq<char>, c: char)
    ensures
        first_index(s, c) matches Some(i) ==> 0 <= i < s.len() && s[i] == c && forall|j: int|
            0 <= j < i ==> s[j] != c,
        first_index(s, c) is None ==> forall|j: int| 0 <= j < s.len() ==> s[j] != c,
    decreases s.len(),
{
    if s.len() > 0 {
        lemma_first_index_bounds(s.drop_last(), c);
        assert forall|j: int| 0 <= j < s.len() - 1 implies s.drop_last()[j] == s[j] by {}
    }
}

/// Appends one character to a `String`.
#[verifier::external_body]
pub(crate) fn push_char(s: &mut String, c: char)
    ensures
        final(s)@ == old(s)@.push(c),
{
    s.push(c);
}

/// Whether `c` is whitespace.
pub fn is_whitespace(c: char) -> (b: bool)
    ensures
        b == is_ws(c),
{
    ('\u{9}' <= c && c <= '\u{d}') || c == ' ' || c == '\u{85}' || c == '\u{a0}' || c
        == '\u{1680}' || ('\u{2000}' <= c && c <= '\u{200a}') || c == '\u{2028}' || c
        == '\u{2029}' || c == '\u{202f}' || c == '\u{205f}' || c == '\u{3000}'
}

/// The characters of `s`, in order.
pub fn chars_of(s: &str) -> (v: Vec<char>)
    ensures
        v@ == s@,
{
    let mut v: Vec<char> = Vec::new();
    for c in it: s.chars()
        invariant
            it.seq() == s@,
            v@ == it.seq().take(it.index() as int),
    {
        v.push(c);
    }
    v
}

/// A `String` holding the characters `cs[from..to]`.
pub(crate) fn string_of_range(cs: &[char], from: usize, to: usize) -> (s: String)
    requires
        from <= to <= cs@.len(),
    ensures
        s@ == cs@.subrange(from as int, to as int),
{
    let mut s = String::new();
    let mut i = from;
    while i < to
        invariant
            from <= i <= to <= cs@.len(),
            s@ == cs@.subrange(from as int, i as int),
        decreases to - i,
    {
        push_char(&mut s, cs[i]);
        i = i + 1;
        assert(s@ =~= cs@.subrange(from as int, i as int));
    }
    s
}

/// A `String` holding the characters of `cs`.
pub fn string_of(cs: &[char]) -> (s: String)
    ensures
        s@ == cs@,
{
    let s = string_of_range(cs, 0, cs.len());
    assert(cs@.subrange(0, cs@.len() as int) =~= cs@);
    s
}

/// The characters `cs[from..to]`.
pub(crate) fn vec_of_range(cs: &[char], from: usize, to: usize) -> (v: Vec<char>)
    requires
        from <= to <= cs@.len(),
    ensures
        v@ == cs@.subrange(from as int, to as int),
{
    let mut v: Vec<char> = Vec::new();
    let mut i = from;
    while i < to
        invariant
            from <= i <= to <= cs@.len(),
            v@ == cs@.subrange(from as int, i as int),
        decreases to - i,
    {
        v.push(cs[i]);
        i = i + 1;
        assert(v@ =~= cs@.subrange(from as int, i as int));
    }
    v
}

/// Whether `a` and `b` hold the same characters.
pub(crate) fn chars_eq(a: &[char], b: &[char]) -> (r: bool)
    ensures
        r == (a@ == b@),
{
    if a.len() != b.len() {
        return false;
    }
    let mut i: usize = 0;
    while i < a.len()
        invariant
            a@.len() == b@.len(),
            i <= a@.len(),
            forall|j: int| 0 <= j < i ==> a@[j] == b@[j],
        decreases a.len() - i,
    {
        if a[i] != b[i] {
            return false;
        }
        i = i + 1;
    }
    assert(a@ =~= b@);
    true
}

proof fn lemma_trim_start_skip(s: Seq<char>, i: int)
    requires
        0 <= i < s.len(),
        is_ws(s[i]),
    ensures
        trim_start(s.skip(i)) == trim_start(s.skip(i + 1)),
{
    assert(s.skip(i).drop_first() =~= s.skip(i + 1));
}

proof fn lemma_trim_end_take(s: Seq<char>, j: int)
    requires
        0 < j <= s.len(),
        is_ws(s[j - 1]),
    ensures
        trim_end(s.take(j)) == trim_end(s.take(j - 1)),
{
    assert(s.take(j).drop_last() =~= s.take(j - 1));
}

/// The bounds of `s[from..to]` without its surrounding whitespace.
pub(crate) fn trim_bounds(s: &[char], from: usize, to: usize) -> (r: (usize, usize))
    requires
        from <= to <= s@.len(),
    ensures
        from <= r.0 <= r.1 <= to,
        s@.subrange(r.0 as int, r.1 as int) == trim(s@.subrange(from as int, to as int)),
{
    let ghost t = s@.subrange(from as int, to as int);
    assert(t.skip(0) =~= t);
    let mut a = from;
    while a < to && is_whitespace(s[a])
        invariant
            from <= a <= to <= s@.len(),
            t == s@.subrange(from as int, to as int),
            trim_start(t) == trim_start(t.skip(a - from)),
        decreases to - a,
    {
        proof {
            lemma_trim_start_skip(t, a - from);
        }
        a = a + 1;
    }
    let ghost u = t.skip(a - from);
    assert(trim_start(u) == u);
    assert(u =~= s@.subrange(a as int, to as int));
    assert(u.take(u.len() as int) =~= u);
    let mut b = to;
    while b > a && is_whitespace(s[b - 1])
        invariant
            from <= a <= b <= to <= s@.len(),
            u == s@.subrange(a as int, to as int),
            trim_end(u) == trim_end(u.take(b - a)),
        decreases b - a,
    {
        proof {
            lemma_trim_end_take(u, b - a);
        }
        b = b - 1;
    }
    assert(trim_end(u.take(b - a)) == u.take(b - a));
    assert(u.take(b - a) =~= s@.subrange(a as int, b as int));
    (a, b)
}

proof fn lemma_strip_leading_skip(s: Seq<char>, i: int, c: char)
    requires
        0 <= i < s.len(),
        s[i] == c,
    ensures
        strip_leading(s.skip(i), c) == strip_leading(s.skip(i + 1), c),
{
    assert(s.skip(i).drop_first() =~= s.skip(i + 1));
}

proof fn lemma_strip_trailing_take(s: Seq<char>, j: int, c: char)
    requires
        0 < j <= s.len(),
        s[j - 1] == c,
    ensures
        strip_trailing(s.take(j), c) == strip_trailing(s.take(j - 1), c),
{
    assert(s.take(j).drop_last() =~= s.take(j - 1));
}

/// The bounds of `s[from..to]` without its leading copies of `c`.
pub(crate) fn strip_leading_bound(s: &[char], from: usize, to: usize, c: char) -> (a: usize)
    requires
        from <= to <= s@.len(),
    ensures
        from <= a <= to,
        s@.subrange(a as int, to as int) == strip_leading(s@.subrange(from as int, to as int), c),
{
    let ghost t = s@.subrange(from as int, to as int);
    assert(t.skip(0) =~= t);
    let mut a = from;
    while a < to && s[a] == c
        invariant
            from <= a <= to <= s@.len(),
            t == s@.subrange(from as int, to as int),
            strip_leading(t, c) == strip_leading(t.skip(a - from), c),
        decreases to - a,
    {
        proof {
            lemma_strip_leading_skip(t, a - from, c);
        }
        a = a + 1;
    }
    assert(t.skip(a - from) =~= s@.subrange(a as int, to as int));
    a
}

/// The bounds of `s[from..to]` without its trailing copies of `c`.
pub(crate) fn strip_trailing_bound(s: &[char], from: usize, to: usize, c: char) -> (b: usize)
    requires
        from <= to <= s@.len(),
    ensures
        from <= b <= to,
        s@.subrange(from as int, b as int) == strip_trailing(
            s@.subrange(from as int, to as int),
            c,
        ),
{
    let ghost t = s@.subrange(from as int, to as int);
    assert(t.take(t.len() as int) =~= t);
    let mut b = to;
    while b > from && s[b - 1] == c
        invariant
            from <= b <= to <= s@.len(),
            t == s@.subrange(from as int, to as int),
            strip_trailing(t, c) == strip_trailing(t.take(b - from), c),
        decreases b - from,
    {
        proof {
            lemma_strip_trailing_take(t, b - from, c);
        }
        b = b - 1;
    }
    assert(t.take(b - from) =~= s@.subrange(from as int, b as int));
    b
}

/// The pieces of `s` between the occurrences of `sep`.
pub(crate) fn split_chars(s: &[char], sep: char) -> (pieces: Vec<Vec<char>>)
    ensures
        pieces@.len() == split_on(s@, sep).len(),
        forall|i: int| 0 <= i < pieces@.len() ==> #[trigger] pieces@[i]@ == split_on(s@, sep)[i],
{
    let mut done: Vec<Vec<char>> = Vec::new();
    let mut cur: Vec<char> = Vec::new();
    let mut i: usize = 0;
    assert(s@.take(0) =~= Seq::<char>::empty());
    while i < s.len()
        invariant
            i <= s@.len(),
            split_on(s@.take(i as int), sep).len() == done@.len() + 1,
            forall|k: int|
                0 <= k < done@.len() ==> #[trigger] done@[k]@ == split_on(s@.take(i as int), sep)[k],
            cur@ == split_on(s@.take(i as int), sep).last(),
        decreases s.len() - i,
    {
        let ghost prev = split_on(s@.take(i as int), sep);
        assert(s@.take(i + 1).drop_last() =~= s@.take(i as int));
        if s[i] == sep {
            let finished = cur;
            done.push(finished);
            cur = Vec::new();
        } else {
            cur.push(s[i]);
        }
        i = i + 1;
        assert forall|k: int| 0 <= k < done@.len() implies #[trigger] done@[k]@ == split_on(
            s@.take(i as int),
            sep,
        )[k] by {}
    }
    assert(s@.take(s@.len() as int) =~= s@);
    done.push(cur);
    assert forall|k: int| 0 <= k < done@.len() implies #[trigger] done@[k]@ == split_on(
        s@,
        sep,
    )[k] by {}
    done
}

/// The index of the first occurrence of `c` in `s[from..to]`, counted
/// from `from`.
pub(crate) fn find_char(s: &[char], from: usize, to: usize, c: char) -> (r: Option<usize>)
    requires
        from <= to <= s@.len(),
    ensures
        r matches Some(i) ==> first_index(s@.subrange(from as int, to as int), c) == Some(
            i as int,
        ),
        r is None ==> first_index(s@.subrange(from as int, to as int), c) is None,
{
    let ghost t = s@.subrange(from as int, to as int);
    let mut i = from;
    while i < to
        invariant
            from <= i <= to <= s@.len(),
            t == s@.subrange(from as int, to as int),
            first_index(t.take(i - from), c) is None,
        decreases to - i,
    {
        assert(t.take(i - from + 1).drop_last() =~= t.take(i - from));
        if s[i] == c {
            proof {
                lemma_first_index_prefix(t, i - from + 1, c);
            }
            return Some(i - from);
        }
        i = i + 1;
    }
    assert(t.take(to - from) =~= t);
    None
}

/// The first occurrence in a prefix is the first occurrence in the whole.
pub proof fn lemma_first_index_prefix(s: Seq<char>, n: int, c: char)
    requires
        0 <= n <= s.len(),
        first_index(s.take(n), c) is Some,
    ensures
        first_index(s, c) == first_index(s.take(n), c),
    decreases s.len(),
{
    if n < s.len() {
        assert(s.drop_last().take(n) =~= s.take(n));
        lemma_first_index_prefix(s.drop_last(), n, c);
    } else {
        assert(s.take(n) =~= s);
    }
}

/// The pieces of `s` between whitespace characters, empty ones included.
pub open spec fn split_ws(s: Seq<char>) -> Seq<Seq<char>>
    decreases s.len(),
{
    if s.len() == 0 {
        seq![Seq::<char>::empty()]
    } else {
        let r = split_ws(s.drop_last());
        if is_ws(s.last()) {
            r.push(Seq::<char>::empty())
        } else {
            r.update(r.len() - 1, r.last().push(s.last()))
        }
    }
}

/// The pieces that are not empty, in order.
pub open spec fn non_empty(ps: Seq<Seq<char>>) -> Seq<Seq<char>>
    decreases ps.len(),
{
    if ps.len() == 0 {
        Seq::<Seq<char>>::empty()
    } else {
        let r = non_empty(ps.drop_last());
        if ps.last().len() == 0 {
            r
        } else {
            r.push(ps.last())
        }
    }
}

/// The words of `s`, as `str::split_whitespace` yields them.
pub open spec fn words(s: Seq<char>) -> Seq<Seq<char>> {
    non_empty(split_ws(s))
}

pub proof fn lemma_split_ws_len(s: Seq<char>)
    ensures
        split_ws(s).len() >= 1,
    decreases s.len(),
{
    if s.len() > 0 {
        lemma_split_ws_len(s.drop_last());
    }
}

/// The words of `s`.
pub(crate) fn words_of(s: &[char]) -> (ws: Vec<String>)
    ensures
        strings_view(ws@) == words(s@),
{
    let mut pieces: Vec<Vec<char>> = Vec::new();
    let mut cur: Vec<char> = Vec::new();
    let mut i: usize = 0;
    assert(s@.take(0) =~= Seq::<char>::empty());
    while i < s.len()
        invariant
            i <= s@.len(),
            split_ws(s@.take(i as int)).len() == pieces@.len() + 1,
            forall|k: int|
                0 <= k < pieces@.len() ==> #[trigger] pieces@[k]@ == split_ws(s@.take(i as int))[k],
            cur@ == split_ws(s@.take(i as int)).last(),
        decreases s.len() - i,
    {
        assert(s@.take(i + 1).drop_last() =~= s@.take(i as int));
        if is_whitespace(s[i]) {
            let finished = cur;
            pieces.push(finished);
            cur = Vec::new();
        } else {
            cur.push(s[i]);
        }
        i = i + 1;
        assert forall|k: int| 0 <= k < pieces@.len() implies #[trigger] pieces@[k]@ == split_ws(
            s@.take(i as int),
        )[k] by {}
    }
    assert(s@.take(s@.len() as int) =~= s@);
    pieces.push(cur);
    let ghost all = split_ws(s@);
    assert(pieces@.len() == all.len());
    assert forall|k: int| 0 <= k < pieces@.len() implies #[trigger] pieces@[k]@ == all[k] by {}
    let mut ws: Vec<String> = Vec::new();
    let mut k: usize = 0;
    while k < pieces.len()
        invariant
            k <= pieces@.len(),
            pieces@.len() == all.len(),
            forall|j: int| 0 <= j < pieces@.len() ==> #[trigger] pieces@[j]@ == all[j],
            strings_view(ws@) == non_empty(all.take(k as int)),
        decreases pieces.len() - k,
    {
        assert(all.take(k + 1).drop_last() =~= all.take(k as int));
        let piece = pieces[k].as_slice();
        assert(piece@ == all[k as int]);
        if piece.len() > 0 {
            let w = string_of(piece);
            ws.push(w);
        }
        k = k + 1;
        assert(strings_view(ws@) =~= non_empty(all.take(k as int)));
    }
    assert(all.take(all.len() as int) =~= all);
    ws
}

/// Whether some line of `s`, trimmed, is `target`.
pub(crate) fn has_trimmed_line(s: &[char], target: &[char]) -> (b: bool)
    ensures
        b == exists|i: int| 0 <= i < raw_lines(s@).len() && trim(#[trigger] raw_lines(s@)[i]) == target@,
{
    let pieces = split_chars(s, '\n');
    let ghost ps = split_on(s@, '\n');
    proof {
        lemma_split_on_len(s@, '\n');
    }
    let ghost ls = raw_lines(s@);
    let n = if pieces[pieces.len() - 1].len() == 0 {
        pieces.len() - 1
    } else {
        pieces.len()
    };
    assert(ls.len() == n);
    assert forall|j: int| 0 <= j < n implies #[trigger] ls[j] == pieces@[j]@ by {}
    let mut k: usize = 0;
    while k < n
        invariant
            k <= n == ls.len(),
            ls == raw_lines(s@),
            n <= pieces@.len(),
            forall|j: int| 0 <= j < n ==> #[trigger] ls[j] == pieces@[j]@,
            forall|j: int| 0 <= j < k ==> trim(#[trigger] ls[j]) != target@,
        decreases n - k,
    {
        let piece = pieces[k].as_slice();
        let (a, b) = trim_bounds(piece, 0, piece.len());
        assert(piece@.subrange(0, piece@.len() as int) =~= piece@);
        let t = vec_of_range(piece, a, b);
        if chars_eq(t.as_slice(), target) {
            assert(trim(raw_lines(s@)[k as int]) == target@);
            return true;
        }
        k = k + 1;
    }
    false
}

/// The text of `lines`, each followed by a line feed.
pub open spec fn join_lines(lines: Seq<Seq<char>>) -> Seq<char>
    decreases lines.len(),
{
    if lines.len() == 0 {
        Seq::<char>::empty()
    } else {
        join_lines(lines.drop_last()) + lines.last() + seq!['\n']
    }
}

/// Whether `c` does not occur in `s`.
pub open spec fn lacks(s: Seq<char>, c: char) -> bool {
    forall|i: int| 0 <= i < s.len() ==> s[i] != c
}

pub proof fn lemma_first_index_none(s: Seq<char>, c: char)
    requires
        lacks(s, c),
    ensures
        first_index(s, c) is None,
{
    lemma_first_index_bounds(s, c);
}

/// Text without the separator extends the last piece.
pub proof fn lemma_split_on_append_plain(x: Seq<char>, y: Seq<char>, sep: char)
    requires
        lacks(y, sep),
    ensures
        split_on(x + y, sep) == split_on(x, sep).update(
            split_on(x, sep).len() - 1,
            split_on(x, sep).last() + y,
        ),
    decreases y.len(),
{
    lemma_split_on_len(x, sep);
    let r = split_on(x, sep);
    if y.len() == 0 {
        assert(x + y =~= x);
        assert(r.last() + y =~= r.last());
        assert(r.update(r.len() - 1, r.last() + y) =~= r);
    } else {
        assert((x + y).drop_last() =~= x + y.drop_last());
        lemma_split_on_append_plain(x, y.drop_last(), sep);
        let q = split_on(x + y.drop_last(), sep);
        assert(q.last() == r.last() + y.drop_last());
        assert(q.last().push(y.last()) =~= r.last() + y);
        assert(split_on(x + y, sep) =~= r.update(r.len() - 1, r.last() + y));
    }
}

/// The lines that `join_lines` joins, with the empty piece after the last
/// line feed.
pub proof fn lemma_split_join_lines(ls: Seq<Seq<char>>)
    requires
        forall|i: int| 0 <= i < ls.len() ==> lacks(#[trigger] ls[i], '\n'),
    ensures
        split_on(join_lines(ls), '\n') == ls.push(Seq::<char>::empty()),
    decreases ls.len(),
{
    if ls.len() == 0 {
        assert(split_on(Seq::<char>::empty(), '\n') =~= seq![Seq::<char>::empty()]);
    } else {
        let pre = ls.drop_last();
        assert forall|i: int| 0 <= i < pre.len() implies lacks(#[trigger] pre[i], '\n') by {
            assert(pre[i] == ls[i]);
        }
        lemma_split_join_lines(pre);
        let j = join_lines(pre);
        assert(lacks(ls[ls.len() - 1], '\n'));
        lemma_split_on_append_plain(j, ls.last(), '\n');
        let body = j + ls.last();
        assert(join_lines(ls) =~= body.push('\n'));
        assert(body.push('\n').drop_last() =~= body);
        assert(Seq::<char>::empty() + ls.last() =~= ls.last());
        assert(split_on(join_lines(ls), '\n') =~= ls.push(Seq::<char>::empty()));
    }
}

/// The lines of a text that `join_lines` joined are the joined lines.
pub proof fn lemma_raw_lines_join(ls: Seq<Seq<char>>)
    requires
        forall|i: int| 0 <= i < ls.len() ==> lacks(#[trigger] ls[i], '\n'),
    ensures
        raw_lines(join_lines(ls)) == ls,
{
    lemma_split_join_lines(ls);
    assert(ls.push(Seq::<char>::empty()).drop_last() =~= ls);
}

/// A text that neither starts nor ends with whitespace is its own trim.
pub proof fn lemma_trim_noop(s: Seq<char>)
    requires
        s.len() > 0,
        !is_ws(s[0]),
        !is_ws(s.last()),
    ensures
        trim_start(s) == s,
        trim_end(s) == s,
        trim(s) == s,
{
}

/// Joining two texts with the separator joins their pieces.
pub proof fn lemma_split_on_concat(x: Seq<char>, y: Seq<char>, sep: char)
    ensures
        split_on(x + seq![sep] + y, sep) == split_on(x, sep) + split_on(y, sep),
    decreases y.len(),
{
    let xs = x + seq![sep];
    lemma_split_on_len(x, sep);
    if y.len() == 0 {
        assert(xs + y =~= xs);
        assert(xs.drop_last() =~= x);
        assert(split_on(x, sep) + split_on(y, sep) =~= split_on(x, sep).push(Seq::<char>::empty()));
    } else {
        assert((xs + y).drop_last() =~= xs + y.drop_last());
        lemma_split_on_concat(x, y.drop_last(), sep);
        lemma_split_on_len(y.drop_last(), sep);
        let a = split_on(x, sep);
        let b = split_on(y.drop_last(), sep);
        if y.last() == sep {
            assert((a + b).push(Seq::<char>::empty()) =~= a + b.push(Seq::<char>::empty()));
        } else {
            assert((a + b).update((a + b).len() - 1, (a + b).last().push(y.last())) =~= a + b.update(
                b.len() - 1,
                b.last().push(y.last()),
            ));
        }
    }
}

} // verus!
