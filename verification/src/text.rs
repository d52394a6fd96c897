//! Text as sequences of characters: searching, splitting, trimming, counting.

use vstd::prelude::*;

verus! {

/// `String::push` appends exactly the given character.
pub assume_specification[ String::push ](s: &mut String, c: char)
    ensures
        final(s)@ == old(s)@.push(c),
;

/// The characters of every string of the list.
pub open spec fn texts(list: Seq<String>) -> Seq<Seq<char>> {
    list.map_values(|s: String| s@)
}

/// Whether `p` occurs in `s` at position `i`.
pub open spec fn occurs_at(s: Seq<char>, p: Seq<char>, i: int) -> bool {
    0 <= i && i + p.len() <= s.len() && s.subrange(i, i + p.len()) == p
}

/// Whether `p` occurs somewhere in `s`.
pub open spec fn contains_text(s: Seq<char>, p: Seq<char>) -> bool {
    exists|i: int| occurs_at(s, p, i)
}

/// The number of occurrences of `p` met when scanning `s` from the left and
/// continuing behind each occurrence; the empty text occurs around every character.
pub open spec fn count_of(s: Seq<char>, p: Seq<char>) -> nat
    decreases s.len(),
{
    if p.len() == 0 {
        s.len() + 1
    } else if s.len() < p.len() {
        0
    } else if occurs_at(s, p, 0) {
        1 + count_of(s.skip(p.len() as int), p)
    } else {
        count_of(s.skip(1), p)
    }
}

/// The position of the first `c` in `s`, or the length of `s` when there is none.
pub open spec fn until(s: Seq<char>, c: char) -> int
    decreases s.len(),
{
    if s.len() == 0 || s[0] == c {
        0
    } else {
        1 + until(s.skip(1), c)
    }
}

/// The pieces of `s` between the occurrences of `c`.
pub open spec fn split_on(s: Seq<char>, c: char) -> Seq<Seq<char>>
    decreases s.len(),
{
    let i = until(s, c);
    if 0 <= i < s.len() {
        seq![s.take(i)] + split_on(s.skip(i + 1), c)
    } else {
        seq![s]
    }
}

/// A line that was closed by a line feed, without a carriage return before it.
pub open spec fn without_cr(line: Seq<char>) -> Seq<char> {
    if line.len() > 0 && line.last() == '\r' {
        line.drop_last()
    } else {
        line
    }
}

/// The lines of `s`: each ends with a line feed, optionally after a carriage
/// return, or with the text; the line ends are not part of a line.
pub open spec fn lines_of(s: Seq<char>) -> Seq<Seq<char>>
    decreases s.len(),
{
    let i = until(s, '\n');
    if s.len() == 0 {
        Seq::empty()
    } else if 0 <= i < s.len() {
        seq![without_cr(s.take(i))] + lines_of(s.skip(i + 1))
    } else {
        seq![s]
    }
}

/// The texts of the list one after the other, with `sep` between neighbours.
pub open spec fn joined(list: Seq<Seq<char>>, sep: Seq<char>) -> Seq<char>
    decreases list.len(),
{
    if list.len() == 0 {
        Seq::empty()
    } else if list.len() == 1 {
        list[0]
    } else {
        joined(list.drop_last(), sep) + sep + list.last()
    }
}

/// `n` copies of `s` one after the other.
pub open spec fn repeated(s: Seq<char>, n: nat) -> Seq<char>
    decreases n,
{
    if n == 0 {
        Seq::empty()
    } else {
        repeated(s, (n - 1) as nat) + s
    }
}

/// The characters of a text, in order.
pub fn to_chars(s: &str) -> (v: Vec<char>)
    ensures
        v@ == s@,
{
    let mut v: Vec<char> = Vec::new();
    for c in it: s.chars()
        invariant
            v@ == it.seq().take(it.index()),
    {
        v.push(c);
    }
    v
}

/// Whether two texts have the same characters.
pub fn same_text(a: &str, b: &str) -> (r: bool)
    ensures
        r == (a@ == b@),
{
    a.to_owned() == b.to_owned()
}

/// The length of a text in bytes.
pub fn byte_len(s: &str) -> (n: usize)
    ensures
        n == vstd::utf8::encode_utf8(s@).len(),
{
    s.as_bytes().len()
}

/// Skipping twice is skipping the sum.
pub proof fn lemma_skip_skip(s: Seq<char>, i: int, k: int)
    requires
        0 <= i,
        0 <= k,
        i + k <= s.len(),
    ensures
        s.skip(i).skip(k) == s.skip(i + k),
{
}

/// `until` points into the text, and everything before it differs from `c`.
pub proof fn lemma_until(s: Seq<char>, c: char)
    ensures
        0 <= until(s, c) <= s.len(),
        until(s, c) < s.len() ==> s[until(s, c)] == c,
        forall|j: int| 0 <= j < until(s, c) ==> s[j] != c,
    decreases s.len(),
{
    if s.len() > 0 && s[0] != c {
        lemma_until(s.skip(1), c);
        assert forall|j: int| 0 <= j < until(s, c) implies s[j] != c by {
            if j > 0 {
                assert(s.skip(1)[j - 1] == s[j]);
            }
        }
    }
}

/// The first `c` is where nothing before it is `c`.
pub proof fn lemma_until_is(s: Seq<char>, c: char, k: int)
    requires
        0 <= k <= s.len(),
        k < s.len() ==> s[k] == c,
        forall|j: int| 0 <= j < k ==> s[j] != c,
    ensures
        until(s, c) == k,
{
    lemma_until(s, c);
}

/// The characters from `a` up to but not including `b`.
pub fn slice_text(v: &Vec<char>, a: usize, b: usize) -> (s: String)
    requires
        a <= b <= v.len(),
    ensures
        s@ == v@.subrange(a as int, b as int),
{
    let mut s = String::new();
    let mut i: usize = a;
    while i < b
        invariant
            a <= i <= b <= v.len(),
            s@ == v@.subrange(a as int, i as int),
        decreases b - i,
    {
        s.push(v[i]);
        i += 1;
    }
    s
}

/// Whether `p` occurs in `v` at position `i`.
pub fn occurs(v: &Vec<char>, p: &Vec<char>, i: usize) -> (r: bool)
    requires
        i <= v.len(),
    ensures
        r == occurs_at(v@, p@, i as int),
{
    if v.len() - i < p.len() {
        return false;
    }
    let mut j: usize = 0;
    while j < p.len()
        invariant
            j <= p.len(),
            i + p.len() <= v.len(),
            forall|k: int| 0 <= k < j ==> v@[i + k] == p@[k],
        decreases p.len() - j,
    {
        if v[i + j] != p[j] {
            assert(v@.subrange(i as int, i + p@.len())[j as int] != p@[j as int]);
            return false;
        }
        j += 1;
    }
    assert(v@.subrange(i as int, i + p@.len()) =~= p@);
    true
}

/// Whether `p` occurs somewhere in `s`.
pub fn contains(s: &str, p: &str) -> (r: bool)
    ensures
        r == contains_text(s@, p@),
{
    let v = to_chars(s);
    let w = to_chars(p);
    let mut i: usize = 0;
    while i < v.len()
        invariant
            i <= v.len(),
            v@ == s@,
            w@ == p@,
            forall|k: int| 0 <= k < i ==> !occurs_at(v@, w@, k),
        decreases v.len() - i,
    {
        if occurs(&v, &w, i) {
            return true;
        }
        i += 1;
    }
    occurs(&v, &w, i)
}

/// How often `p` occurs in `s` without overlaps, scanning from the left.
pub fn count_matches(s: &str, p: &str) -> (n: u128)
    ensures
        n == count_of(s@, p@),
{
    let v = to_chars(s);
    let w = to_chars(p);
    if w.len() == 0 {
        return v.len() as u128 + 1;
    }
    let mut n: u128 = 0;
    let mut i: usize = 0;
    assert(v@.skip(0) == v@);
    while v.len() - i >= w.len()
        invariant
            i <= v.len(),
            0 < w@.len(),
            n <= i,
            n + count_of(v@.skip(i as int), w@) == count_of(v@, w@),
        decreases v.len() - i,
    {
        let hit = occurs(&v, &w, i);
        proof {
            let rest = v@.skip(i as int);
            assert(rest.subrange(0, w@.len() as int) == v@.subrange(i as int, i + w@.len()));
            assert(occurs_at(rest, w@, 0) == hit);
            lemma_skip_skip(v@, i as int, w@.len() as int);
            lemma_skip_skip(v@, i as int, 1);
        }
        if hit {
            n += 1;
            i += w.len();
        } else {
            i += 1;
        }
    }
    n
}

/// The pieces of `s` between the occurrences of `c`.
pub fn split(s: &str, c: char) -> (out: Vec<String>)
    ensures
        texts(out@) == split_on(s@, c),
{
    let v = to_chars(s);
    let mut out: Vec<String> = Vec::new();
    let mut a: usize = 0;
    let mut i: usize = 0;
    assert(v@.skip(0) == v@);
    assert(texts(out@) + split_on(v@, c) == split_on(v@, c));
    while i < v.len()
        invariant
            a <= i <= v.len(),
            v@ == s@,
            forall|j: int| a <= j < i ==> v@[j] != c,
            texts(out@) + split_on(v@.skip(a as int), c) == split_on(v@, c),
        decreases v.len() - i,
    {
        if v[i] == c {
            let piece = slice_text(&v, a, i);
            proof {
                let rest = v@.skip(a as int);
                lemma_until_is(rest, c, i - a);
                assert(rest.take(i - a) == piece@);
                lemma_skip_skip(v@, a as int, i - a + 1);
                assert(texts(out@.push(piece)) == texts(out@).push(piece@));
                assert(texts(out@).push(piece@) + split_on(v@.skip(i + 1), c) == texts(out@)
                    + split_on(rest, c));
            }
            out.push(piece);
            a = i + 1;
        }
        i += 1;
    }
    let piece = slice_text(&v, a, i);
    proof {
        let rest = v@.skip(a as int);
        lemma_until_is(rest, c, rest.len() as int);
        assert(rest == piece@);
        assert(texts(out@.push(piece)) == texts(out@).push(piece@));
        assert(texts(out@).push(piece@) == texts(out@) + split_on(rest, c));
    }
    out.push(piece);
    out
}

/// The lines of `s`, without their line ends.
pub fn lines(s: &str) -> (out: Vec<String>)
    ensures
        texts(out@) == lines_of(s@),
{
    let v = to_chars(s);
    let mut out: Vec<String> = Vec::new();
    let mut a: usize = 0;
    let mut i: usize = 0;
    assert(v@.skip(0) == v@);
    assert(texts(out@) + lines_of(v@) == lines_of(v@));
    while i < v.len()
        invariant
            a <= i <= v.len(),
            v@ == s@,
            forall|j: int| a <= j < i ==> v@[j] != '\n',
            texts(out@) + lines_of(v@.skip(a as int)) == lines_of(v@),
        decreases v.len() - i,
    {
        if v[i] == '\n' {
            let end: usize = if i > a && v[i - 1] == '\r' { i - 1 } else { i };
            let line = slice_text(&v, a, end);
            proof {
                let rest = v@.skip(a as int);
                lemma_until_is(rest, '\n', i - a);
                assert(without_cr(rest.take(i - a)) == line@);
                lemma_skip_skip(v@, a as int, i - a + 1);
                assert(texts(out@.push(line)) == texts(out@).push(line@));
                assert(texts(out@).push(line@) + lines_of(v@.skip(i + 1)) == texts(out@)
                    + lines_of(rest));
            }
            out.push(line);
            a = i + 1;
        }
        i += 1;
    }
    if a < v.len() {
        let line = slice_text(&v, a, i);
        proof {
            let rest = v@.skip(a as int);
            lemma_until_is(rest, '\n', rest.len() as int);
            assert(rest == line@);
            assert(texts(out@.push(line)) == texts(out@).push(line@));
            assert(texts(out@).push(line@) == texts(out@) + lines_of(rest));
        }
        out.push(line);
    }
    out
}

/// What follows the prefix `p` of `s`; nothing when `s` does not start with `p`.
pub fn strip_prefix(s: &str, p: &str) -> (r: Option<String>)
    ensures
        match r {
            Some(rest) => s@ == p@ + rest@,
            None => !p@.is_prefix_of(s@),
        },
{
    let v = to_chars(s);
    let w = to_chars(p);
    if occurs(&v, &w, 0) {
        let rest = slice_text(&v, w.len(), v.len());
        assert(s@ == p@ + rest@) by {
            assert(v@ == v@.subrange(0, w@.len() as int) + v@.subrange(w@.len() as int, v@.len() as int));
        }
        Some(rest)
    } else {
        assert(!p@.is_prefix_of(s@)) by {
            if p@.is_prefix_of(s@) {
                assert(v@.subrange(0, w@.len() as int) == w@);
            }
        }
        None
    }
}

/// What precedes a line feed at the end of `s`; nothing when `s` does not end with one.
pub fn strip_newline(s: &str) -> (r: Option<String>)
    ensures
        match r {
            Some(rest) => s@ == rest@.push('\n'),
            None => s@.len() == 0 || s@.last() != '\n',
        },
{
    let v = to_chars(s);
    if v.len() > 0 && v[v.len() - 1] == '\n' {
        Some(slice_text(&v, 0, v.len() - 1))
    } else {
        None
    }
}

/// The texts of the list one after the other, with `sep` between neighbours.
pub fn join(list: &Vec<String>, sep: &str) -> (s: String)
    ensures
        s@ == joined(texts(list@), sep@),
{
    let mut s = String::new();
    let mut i: usize = 0;
    while i < list.len()
        invariant
            i <= list.len(),
            s@ == joined(texts(list@).take(i as int), sep@),
        decreases list.len() - i,
    {
        if i > 0 {
            s.append(sep);
        }
        s.append(list[i].as_str());
        proof {
            let head = texts(list@).take(i + 1);
            assert(head.drop_last() == texts(list@).take(i as int));
            assert(head.last() == list@[i as int]@);
        }
        i += 1;
    }
    assert(texts(list@).take(i as int) == texts(list@));
    s
}

/// Appends `n` copies of `p` to `s`.
pub fn append_repeated(s: &mut String, p: &str, n: u128)
    ensures
        final(s)@ == old(s)@ + repeated(p@, n as nat),
{
    let ghost before = s@;
    let mut i: u128 = 0;
    assert(before + repeated(p@, 0) == before);
    while i < n
        invariant
            i <= n,
            s@ == before + repeated(p@, i as nat),
        decreases n - i,
    {
        s.append(p);
        assert(repeated(p@, (i + 1) as nat) == repeated(p@, i as nat) + p@);
        i += 1;
    }
}

/// A copy of the list with the same texts.
pub fn copy_texts(list: &Vec<String>) -> (out: Vec<String>)
    ensures
        out@ == list@,
{
    let mut out: Vec<String> = Vec::new();
    let mut i: usize = 0;
    while i < list.len()
        invariant
            i <= list.len(),
            out@ == list@.take(i as int),
        decreases list.len() - i,
    {
        out.push(list[i].clone());
        i += 1;
    }
    out
}

/// Whether the list holds a text with the characters of `s`.
pub fn list_contains(list: &Vec<String>, s: &str) -> (r: bool)
    ensures
        r == texts(list@).contains(s@),
{
    let mut i: usize = 0;
    while i < list.len()
        invariant
            i <= list.len(),
            forall|k: int| 0 <= k < i ==> texts(list@)[k] != s@,
        decreases list.len() - i,
    {
        if same_text(list[i].as_str(), s) {
            assert(texts(list@)[i as int] == s@);
            return true;
        }
        assert(texts(list@)[i as int] == list@[i as int]@);
        i += 1;
    }
    false
}

/// Splitting a text and joining the pieces with the separator gives the text back, and
/// no piece holds the separator.
pub proof fn law_split_join(s: Seq<char>, c: char)
    ensures
        joined(split_on(s, c), seq![c]) == s,
        split_on(s, c).len() > 0,
        forall|i: int| 0 <= i < split_on(s, c).len() ==> !(#[trigger] split_on(s, c)[i]).contains(c),
    decreases s.len(),
{
    lemma_until(s, c);
    let i = until(s, c);
    if i < s.len() {
        let rest = split_on(s.skip(i + 1), c);
        law_split_join(s.skip(i + 1), c);
        lemma_joined_front(s.take(i), rest, seq![c]);
        assert(s == s.take(i) + seq![c] + s.skip(i + 1));
    }
}

/// Joining from the front is joining from the back.
proof fn lemma_joined_front(head: Seq<char>, rest: Seq<Seq<char>>, sep: Seq<char>)
    requires
        rest.len() > 0,
    ensures
        joined(seq![head] + rest, sep) == head + sep + joined(rest, sep),
    decreases rest.len(),
{
    let all = seq![head] + rest;
    assert(all.drop_last() == seq![head] + rest.drop_last());
    assert(all.last() == rest.last());
    if rest.len() > 1 {
        lemma_joined_front(head, rest.drop_last(), sep);
        assert(head + sep + (joined(rest.drop_last(), sep) + sep + rest.last()) == (head + sep
            + joined(rest.drop_last(), sep)) + sep + rest.last());
    } else {
        assert(all.drop_last() == seq![head]);
        assert(joined(seq![head], sep) == head);
        assert(joined(rest, sep) == rest.last());
    }
}

/// No line holds a line feed.
pub proof fn law_lines_have_no_newline(s: Seq<char>)
    ensures
        forall|i: int| 0 <= i < lines_of(s).len() ==> !(#[trigger] lines_of(s)[i]).contains('\n'),
    decreases s.len(),
{
    lemma_until(s, '\n');
    let i = until(s, '\n');
    if i < s.len() {
        law_lines_have_no_newline(s.skip(i + 1));
        assert(!without_cr(s.take(i)).contains('\n'));
        assert(lines_of(s) == seq![without_cr(s.take(i))] + lines_of(s.skip(i + 1)));
    } else {
        assert(!s.contains('\n'));
    }
}

/// The encoding of two texts after one another is the encodings after one another.
pub proof fn lemma_encode_concat(a: Seq<char>, b: Seq<char>)
    ensures
        vstd::utf8::encode_utf8(a + b) == vstd::utf8::encode_utf8(a) + vstd::utf8::encode_utf8(b),
    decreases a.len(),
{
    if a.len() == 0 {
        assert(a + b == b);
    } else {
        lemma_encode_concat(a.drop_first(), b);
        assert((a + b).drop_first() == a.drop_first() + b);
        assert((a + b)[0] == a[0]);
    }
}

/// The texts of a list are those of its strings, one for one.
pub proof fn law_texts(list: Seq<String>)
    ensures
        texts(list).len() == list.len(),
        forall|i: int| 0 <= i < list.len() ==> #[trigger] texts(list)[i] == list[i]@,
{
}

/// A text occurs in whatever is put around it, also where nothing is put before or
/// behind it.
pub proof fn law_contains_middle(a: Seq<char>, p: Seq<char>, b: Seq<char>)
    ensures
        contains_text(a + p + b, p),
{
    let s = a + p + b;
    assert(s.subrange(a.len() as int, (a.len() + p.len()) as int) == p);
    assert(occurs_at(s, p, a.len() as int));
}

/// A text in which another occurs is that other with something before and behind it.
pub proof fn law_contained_splits(s: Seq<char>, p: Seq<char>) -> (around: (Seq<char>, Seq<char>))
    requires
        contains_text(s, p),
    ensures
        s == around.0 + p + around.1,
{
    let i = choose|i: int| occurs_at(s, p, i);
    let around = (s.take(i), s.skip(i + p.len()));
    assert(s == around.0 + p + around.1);
    around
}

/// Everything before the first `c` differs from it, and there it stands.
pub proof fn law_until(before: Seq<char>, c: char, behind: Seq<char>)
    requires
        !before.contains(c),
    ensures
        until(before + seq![c] + behind, c) == before.len(),
        until(before, c) == before.len(),
{
    let s = before + seq![c] + behind;
    assert forall|j: int| 0 <= j < before.len() implies s[j] != c by {
        assert(before.contains(before[j]));
    }
    assert forall|j: int| 0 <= j < before.len() implies before[j] != c by {
        assert(before.contains(before[j]));
    }
    lemma_until_is(s, c, before.len() as int);
    lemma_until_is(before, c, before.len() as int);
}

/// The empty text is met around every character.
pub proof fn law_count_of_nothing(s: Seq<char>)
    ensures
        count_of(s, Seq::empty()) == s.len() + 1,
{
}

/// A text is counted first where it first occurs, and further counted behind that place.
pub proof fn law_count_first(a: Seq<char>, p: Seq<char>, b: Seq<char>)
    requires
        p.len() > 0,
        forall|i: int|
            0 <= i < a.len() ==> #[trigger] (a + p + b).subrange(i, i + p.len()) != p,
    ensures
        count_of(a + p + b, p) == 1 + count_of(b, p),
    decreases a.len(),
{
    let s = a + p + b;
    if a.len() == 0 {
        assert(s.subrange(0, p.len() as int) == p);
        assert(s.skip(p.len() as int) == b);
    } else {
        assert(s.subrange(0, 0int + p.len()) != p);
        assert(s.skip(1) == a.skip(1) + p + b);
        assert forall|i: int| 0 <= i < a.skip(1).len() implies #[trigger] (a.skip(1) + p
            + b).subrange(i, i + p.len()) != p by {
            assert((a.skip(1) + p + b).subrange(i, i + p.len()) == s.subrange(
                i + 1,
                i + 1 + p.len(),
            ));
        }
        law_count_first(a.skip(1), p, b);
    }
}

/// A text is counted at all exactly where it occurs.
pub proof fn law_count_none(s: Seq<char>, p: Seq<char>)
    requires
        p.len() > 0,
    ensures
        count_of(s, p) == 0 <==> !contains_text(s, p),
    decreases s.len(),
{
    if s.len() >= p.len() {
        if occurs_at(s, p, 0) {
        } else {
            law_count_none(s.skip(1), p);
            if contains_text(s, p) {
                let i = choose|i: int| occurs_at(s, p, i);
                assert(s.skip(1).subrange(i - 1, i - 1 + p.len()) == s.subrange(i, i + p.len()));
                assert(occurs_at(s.skip(1), p, i - 1));
            }
            if contains_text(s.skip(1), p) {
                let i = choose|i: int| occurs_at(s.skip(1), p, i);
                assert(s.skip(1).subrange(i, i + p.len()) == s.subrange(i + 1, i + 1 + p.len()));
                assert(occurs_at(s, p, i + 1));
            }
        }
    } else {
        if contains_text(s, p) {
            let i = choose|i: int| occurs_at(s, p, i);
        }
    }
}

/// A line is what stands before a line feed, or before a carriage return and a line feed;
/// what follows makes further lines.
pub proof fn law_line_ends(line: Seq<char>, rest: Seq<char>)
    requires
        !line.contains('\n'),
    ensures
        lines_of(line + seq!['\r', '\n'] + rest) == seq![line] + lines_of(rest),
        line.len() == 0 || line.last() != '\r' ==> lines_of(line + seq!['\n'] + rest) == seq![line]
            + lines_of(rest),
{
    let crlf = line + seq!['\r', '\n'] + rest;
    let closed = line + seq!['\r'];
    assert(!closed.contains('\n')) by {
        if closed.contains('\n') {
            let i = choose|i: int| 0 <= i < closed.len() && closed[i] == '\n';
            assert(line[i] == '\n');
        }
    }
    assert(crlf == closed + seq!['\n'] + rest);
    law_until(closed, '\n', rest);
    assert(crlf.take(closed.len() as int) == closed);
    assert(crlf.skip((closed.len() + 1) as int) == rest);
    assert(closed.drop_last() == line);
    assert(lines_of(crlf) == seq![without_cr(closed)] + lines_of(rest));
    let lf = line + seq!['\n'] + rest;
    law_until(line, '\n', rest);
    assert(lf.take(line.len() as int) == line);
    assert(lf.skip((line.len() + 1) as int) == rest);
}

/// A text without a line feed is one line, but for the empty text, which has none.
pub proof fn law_last_line(s: Seq<char>)
    requires
        !s.contains('\n'),
    ensures
        lines_of(s) == if s.len() == 0 {
            Seq::<Seq<char>>::empty()
        } else {
            seq![s]
        },
{
    law_until(s, '\n', Seq::empty());
}

/// Texts are joined with the separator between neighbours and nowhere else.
pub proof fn law_joined(first: Seq<Seq<char>>, second: Seq<Seq<char>>, sep: Seq<char>, one: Seq<char>)
    ensures
        joined(Seq::empty(), sep) == Seq::<char>::empty(),
        joined(seq![one], sep) == one,
        first.len() > 0 && second.len() > 0 ==> joined(first + second, sep) == joined(first, sep)
            + sep + joined(second, sep),
    decreases second.len(),
{
    if first.len() > 0 && second.len() > 0 {
        let all = first + second;
        assert(all.drop_last() == first + second.drop_last());
        assert(all.last() == second.last());
        if second.len() > 1 {
            law_joined(first, second.drop_last(), sep, one);
            assert(joined(all, sep) == joined(first, sep) + sep + (joined(second.drop_last(), sep)
                + sep + second.last()));
        } else {
            assert(all.drop_last() == first);
        }
    }
}

/// Copies add up.
pub proof fn law_repeated(s: Seq<char>, m: nat, n: nat)
    ensures
        repeated(s, 0) == Seq::<char>::empty(),
        repeated(s, 1) == s,
        repeated(s, m + n) == repeated(s, m) + repeated(s, n),
    decreases n,
{
    assert(repeated(s, 1) == repeated(s, 0) + s);
    if n == 0 {
        assert(repeated(s, m) + repeated(s, 0) == repeated(s, m));
    } else {
        law_repeated(s, m, (n - 1) as nat);
        assert((m + n - 1) as nat == m + (n - 1) as nat);
        assert(repeated(s, m + n) == repeated(s, m) + (repeated(s, (n - 1) as nat) + s));
    }
}

/// Splitting goes on behind each separator by itself.
pub proof fn law_split_goes_on(a: Seq<char>, c: char, b: Seq<char>)
    ensures
        split_on(a + seq![c] + b, c) == split_on(a, c) + split_on(b, c),
        !a.contains(c) ==> split_on(a, c) == seq![a],
    decreases a.len(),
{
    let s = a + seq![c] + b;
    lemma_until(a, c);
    let i = until(a, c);
    if i < a.len() {
        let head = a.take(i);
        let tail = a.skip(i + 1);
        assert(!head.contains(c));
        assert(a == head + seq![c] + tail);
        assert(s == head + seq![c] + (tail + seq![c] + b));
        law_until(head, c, tail + seq![c] + b);
        assert(s.take(i) == head);
        assert(s.skip(i + 1) == tail + seq![c] + b);
        law_split_goes_on(tail, c, b);
        assert(split_on(s, c) == seq![head] + (split_on(tail, c) + split_on(b, c)));
        assert(a.contains(c));
    } else {
        assert(!a.contains(c));
        law_until(a, c, b);
        assert(s.take(a.len() as int) == a);
        assert(s.skip((a.len() + 1) as int) == b);
    }
}

}
