//! Character-level text handling: lines, fields separated by a character,
//! whitespace-separated words and trimming, each with a specification that
//! follows the corresponding method of `str`.
use vstd::prelude::*;

verus! {

/// The Unicode `White_Space` property, which `char::is_whitespace` tests.
pub open spec fn is_space(c: char) -> bool {
    let u = c as u32;
    ||| 0x09 <= u <= 0x0d
    ||| u == 0x20
    ||| u == 0x85
    ||| u == 0xa0
    ||| u == 0x1680
    ||| 0x2000 <= u <= 0x200a
    ||| u == 0x2028
    ||| u == 0x2029
    ||| u == 0x202f
    ||| u == 0x205f
    ||| u == 0x3000
}

/// First index at or after `start` that holds `c`, or the length of `s`.
pub open spec fn find_char_from(s: Seq<char>, start: int, c: char) -> int
    decreases s.len() - start,
{
    if start < 0 || start >= s.len() {
        s.len() as int
    } else if s[start] == c {
        start
    } else {
        find_char_from(s, start + 1, c)
    }
}

/// First index at or after `start` that holds a whitespace character, or the length of `s`.
pub open spec fn find_space_from(s: Seq<char>, start: int) -> int
    decreases s.len() - start,
{
    if start < 0 || start >= s.len() {
        s.len() as int
    } else if is_space(s[start]) {
        start
    } else {
        find_space_from(s, start + 1)
    }
}

/// First index at or after `start` that holds a character other than whitespace,
/// or the length of `s`.
pub open spec fn find_nonspace_from(s: Seq<char>, start: int) -> int
    decreases s.len() - start,
{
    if start < 0 || start >= s.len() {
        s.len() as int
    } else if !is_space(s[start]) {
        start
    } else {
        find_nonspace_from(s, start + 1)
    }
}

pub proof fn lemma_find_char_bounds(s: Seq<char>, start: int, c: char)
    requires
        0 <= start <= s.len(),
    ensures
        start <= find_char_from(s, start, c) <= s.len(),
        find_char_from(s, start, c) < s.len() ==> s[find_char_from(s, start, c)] == c,
        forall|k: int| start <= k < find_char_from(s, start, c) ==> s[k] != c,
    decreases s.len() - start,
{
    if start < s.len() && s[start] != c {
        lemma_find_char_bounds(s, start + 1, c);
    }
}

pub proof fn lemma_find_space_bounds(s: Seq<char>, start: int)
    requires
        0 <= start <= s.len(),
    ensures
        start <= find_space_from(s, start) <= s.len(),
        find_space_from(s, start) < s.len() ==> is_space(s[find_space_from(s, start)]),
        forall|k: int| start <= k < find_space_from(s, start) ==> !is_space(s[k]),
    decreases s.len() - start,
{
    if start < s.len() && !is_space(s[start]) {
        lemma_find_space_bounds(s, start + 1);
    }
}

pub proof fn lemma_find_nonspace_bounds(s: Seq<char>, start: int)
    requires
        0 <= start <= s.len(),
    ensures
        start <= find_nonspace_from(s, start) <= s.len(),
        find_nonspace_from(s, start) < s.len() ==> !is_space(s[find_nonspace_from(s, start)]),
        forall|k: int| start <= k < find_nonspace_from(s, start) ==> is_space(s[k]),
    decreases s.len() - start,
{
    if start < s.len() && is_space(s[start]) {
        lemma_find_nonspace_bounds(s, start + 1);
    }
}

/// A line as `str::lines` yields it: the line feed is removed, and so is a
/// carriage return just before it.
pub open spec fn strip_cr(l: Seq<char>) -> Seq<char> {
    if l.len() > 0 && l.last() == '\r' {
        l.drop_last()
    } else {
        l
    }
}

/// The lines of `s` from index `start` on, as `str::lines` yields them: a
/// piece that ends in a line feed loses it and a carriage return before it;
/// a last piece without a line feed is kept as it is; no empty last line
/// follows a final line feed.
pub open spec fn lines_from(s: Seq<char>, start: int) -> Seq<Seq<char>>
    decreases s.len() - start,
{
    if start < 0 || start >= s.len() {
        seq![]
    } else {
        let e = find_char_from(s, start, '\n');
        proof {
            lemma_find_char_bounds(s, start, '\n');
        }
        if e < s.len() {
            seq![strip_cr(s.subrange(start, e))] + lines_from(s, e + 1)
        } else {
            seq![s.subrange(start, s.len() as int)]
        }
    }
}

/// Searching past a prefix is searching the rest.
pub proof fn lemma_find_char_shift(p: Seq<char>, r: Seq<char>, i: int, c: char)
    requires
        0 <= i <= r.len(),
    ensures
        find_char_from(p + r, p.len() + i, c) == p.len() + find_char_from(r, i, c),
    decreases r.len() - i,
{
    if i < r.len() {
        assert((p + r)[p.len() + i] == r[i]);
        if r[i] != c {
            lemma_find_char_shift(p, r, i + 1, c);
        }
    }
}

/// The lines after a prefix are the lines of the rest.
pub proof fn lemma_lines_shift(p: Seq<char>, r: Seq<char>, i: int)
    requires
        0 <= i <= r.len(),
    ensures
        lines_from(p + r, p.len() + i) == lines_from(r, i),
    decreases r.len() - i,
{
    if i < r.len() {
        let s = p + r;
        let st = p.len() + i;
        lemma_find_char_shift(p, r, i, '\n');
        lemma_find_char_bounds(r, i, '\n');
        let e = find_char_from(r, i, '\n');
        assert(s.subrange(st, p.len() + e) =~= r.subrange(i, e));
        if e < r.len() {
            lemma_lines_shift(p, r, e + 1);
        } else {
            assert(s.subrange(st, s.len() as int) =~= r.subrange(i, r.len() as int));
        }
    }
}

/// A line ended by a line feed comes first, then the lines of what follows.
pub proof fn lemma_lines_cons(l: Seq<char>, rest: Seq<char>)
    requires
        !l.contains('\n'),
    ensures
        lines(l + seq!['\n'] + rest) == seq![strip_cr(l)] + lines(rest),
{
    let p = l + seq!['\n'];
    let s = p + rest;
    lemma_find_char_bounds(s, 0, '\n');
    let f = find_char_from(s, 0, '\n');
    assert(s[l.len() as int] == '\n');
    if f < l.len() {
        assert(s[f] == l[f]);
        assert(l.contains(l[f]));
    }
    assert(f == l.len());
    assert(s.subrange(0, f) =~= l);
    lemma_lines_shift(p, rest, 0);
    assert(p.len() + 0 == l.len() + 1);
}

/// A text without a line feed is one line, unless it is empty.
pub proof fn lemma_lines_single(l: Seq<char>)
    requires
        !l.contains('\n'),
    ensures
        l.len() == 0 ==> lines(l) == Seq::<Seq<char>>::empty(),
        l.len() > 0 ==> lines(l) == seq![l],
{
    if l.len() > 0 {
        lemma_find_char_bounds(l, 0, '\n');
        let f = find_char_from(l, 0, '\n');
        if f < l.len() {
            assert(l.contains(l[f]));
        }
        assert(l.subrange(0, l.len() as int) =~= l);
    }
}

/// `str::lines`.
pub open spec fn lines(s: Seq<char>) -> Seq<Seq<char>> {
    lines_from(s, 0)
}

/// The pieces of `s` from `start` on, separated by `c`, as `str::split` yields
/// them (there is always at least one piece).
pub open spec fn split_from(s: Seq<char>, start: int, c: char) -> Seq<Seq<char>>
    decreases s.len() - start,
{
    if start < 0 || start > s.len() {
        seq![]
    } else {
        let e = find_char_from(s, start, c);
        proof {
            lemma_find_char_bounds(s, start, c);
        }
        if e < s.len() {
            seq![s.subrange(start, e)] + split_from(s, e + 1, c)
        } else {
            seq![s.subrange(start, s.len() as int)]
        }
    }
}

/// `str::split` with a character as the separator.
pub open spec fn split(s: Seq<char>, c: char) -> Seq<Seq<char>> {
    split_from(s, 0, c)
}

/// The maximal runs of characters other than whitespace from `start` on, as
/// `str::split_whitespace` yields them.
pub open spec fn words_from(s: Seq<char>, start: int) -> Seq<Seq<char>>
    decreases s.len() - start,
{
    if start < 0 || start >= s.len() {
        seq![]
    } else {
        let b = find_nonspace_from(s, start);
        proof {
            lemma_find_nonspace_bounds(s, start);
        }
        if b >= s.len() {
            seq![]
        } else {
            let e = find_space_from(s, b);
            proof {
                lemma_find_space_bounds(s, b);
                if e == b {
                    assert(!is_space(s[b]));
                }
            }
            seq![s.subrange(b, e)] + words_from(s, e)
        }
    }
}

/// `str::split_whitespace`.
pub open spec fn words(s: Seq<char>) -> Seq<Seq<char>> {
    words_from(s, 0)
}

/// Index just past the last character other than whitespace in `s.take(end)`, or 0.
pub open spec fn trim_end_from(s: Seq<char>, end: int) -> int
    decreases end,
{
    if end <= 0 {
        0
    } else if is_space(s[end - 1]) {
        trim_end_from(s, end - 1)
    } else {
        end
    }
}

/// `str::trim`: leading and trailing whitespace removed.
pub open spec fn trim(s: Seq<char>) -> Seq<char> {
    let b = find_nonspace_from(s, 0);
    let e = trim_end_from(s, s.len() as int);
    if b < e {
        s.subrange(b, e)
    } else {
        seq![]
    }
}

proof fn lemma_trim_end_bounds(s: Seq<char>, end: int)
    requires
        0 <= end <= s.len(),
    ensures
        0 <= trim_end_from(s, end) <= end,
        trim_end_from(s, end) > 0 ==> !is_space(s[trim_end_from(s, end) - 1]),
        forall|k: int| trim_end_from(s, end) <= k < end ==> is_space(s[k]),
    decreases end,
{
    if end > 0 && is_space(s[end - 1]) {
        lemma_trim_end_bounds(s, end - 1);
    }
}

/// `trim` removes whitespace only, and all of it at both ends: the text is
/// some whitespace, the trimmed text, then some whitespace, and the trimmed
/// text neither begins nor ends with whitespace.
pub proof fn lemma_trim_shape(s: Seq<char>)
    ensures
        exists|a: int, b: int|
            0 <= a <= b <= s.len() && trim(s) == s.subrange(a, b) && (forall|k: int|
                0 <= k < a ==> is_space(#[trigger] s[k])) && (forall|k: int|
                b <= k < s.len() ==> is_space(#[trigger] s[k])),
        trim(s).len() > 0 ==> !is_space(trim(s)[0]) && !is_space(trim(s).last()),
        (forall|k: int| 0 <= k < s.len() ==> !is_space(#[trigger] s[k])) ==> trim(s) == s,
{
    lemma_find_nonspace_bounds(s, 0);
    lemma_trim_end_bounds(s, s.len() as int);
    let b = find_nonspace_from(s, 0);
    let e = trim_end_from(s, s.len() as int);
    if b < e {
        assert(trim(s) == s.subrange(b, e));
        assert(trim(s)[0] == s[b]);
        assert(trim(s).last() == s[e - 1]);
    } else {
        // every character is whitespace: below b and from e on, with e <= b
        assert(trim(s) =~= s.subrange(s.len() as int, s.len() as int));
        assert forall|k: int| 0 <= k < s.len() implies is_space(#[trigger] s[k]) by {
            if k < b {
            } else {
                assert(e <= k);
            }
        }
    }
    if forall|k: int| 0 <= k < s.len() ==> !is_space(#[trigger] s[k]) {
        if s.len() > 0 {
            assert(!is_space(s[0]));
            assert(!is_space(s[s.len() - 1]));
            assert(b == 0);
            assert(e == s.len());
        }
        assert(trim(s) =~= s);
    }
}

/// `str::starts_with` with a string pattern.
pub open spec fn starts_with(s: Seq<char>, p: Seq<char>) -> bool {
    p.len() <= s.len() && s.subrange(0, p.len() as int) == p
}

/// `str::contains` with a string pattern.
pub open spec fn contains_seq(s: Seq<char>, p: Seq<char>) -> bool {
    exists|i: int| 0 <= i && i + p.len() <= s.len() && #[trigger] s.subrange(i, i + p.len()) == p
}

/// The views of a sequence of character vectors.
pub open spec fn views(v: Seq<Vec<char>>) -> Seq<Seq<char>> {
    v.map_values(|l: Vec<char>| l@)
}

/// Calls `String::push`; the contract claims that the character is appended
/// at the end of the string and nothing else changes.
#[verifier::external_body]
pub(crate) fn push_char(s: &mut String, c: char)
    ensures
        final(s)@ == old(s)@.push(c),
{
    s.push(c);
}

/// The characters of a string slice, in order.
pub fn chars_of(s: &str) -> (r: Vec<char>)
    ensures
        r@ == s@,
{
    let n = s.unicode_len();
    let mut r: Vec<char> = Vec::new();
    let mut i: usize = 0;
    while i < n
        invariant
            n == s@.len(),
            i <= n,
            r@ == s@.subrange(0, i as int),
        decreases n - i,
    {
        r.push(s.get_char(i));
        i = i + 1;
    }
    r
}

/// The string made of the given characters.
pub fn string_of(v: &Vec<char>) -> (r: String)
    ensures
        r@ == v@,
{
    let mut r = String::new();
    let mut i: usize = 0;
    while i < v.len()
        invariant
            i <= v.len(),
            r@ == v@.subrange(0, i as int),
        decreases v.len() - i,
    {
        push_char(&mut r, v[i]);
        i = i + 1;
    }
    r
}

/// Whether the character is whitespace (`char::is_whitespace`).
pub fn is_space_char(c: char) -> (r: bool)
    ensures
        r == is_space(c),
{
    let u = c as u32;
    (0x09 <= u && u <= 0x0d) || u == 0x20 || u == 0x85 || u == 0xa0 || u == 0x1680 || (0x2000
        <= u && u <= 0x200a) || u == 0x2028 || u == 0x2029 || u == 0x202f || u == 0x205f || u
        == 0x3000
}

/// Whether two character sequences are equal.
pub fn chars_eq(a: &Vec<char>, b: &Vec<char>) -> (r: bool)
    ensures
        r == (a@ == b@),
{
    if a.len() != b.len() {
        return false;
    }
    let mut i: usize = 0;
    while i < a.len()
        invariant
            a.len() == b.len(),
            i <= a.len(),
            forall|k: int| 0 <= k < i ==> a@[k] == b@[k],
        decreases a.len() - i,
    {
        if a[i] != b[i] {
            return false;
        }
        i = i + 1;
    }
    assert(a@ =~= b@);
    true
}

/// Whether the characters of `a` are those of the string slice `b`.
pub fn chars_eq_str(a: &Vec<char>, b: &str) -> (r: bool)
    ensures
        r == (a@ == b@),
{
    let bv = chars_of(b);
    chars_eq(a, &bv)
}

/// Copy of `s[b..e]`.
pub fn copy_range(s: &Vec<char>, b: usize, e: usize) -> (r: Vec<char>)
    requires
        b <= e <= s.len(),
    ensures
        r@ == s@.subrange(b as int, e as int),
{
    let mut r: Vec<char> = Vec::new();
    let mut i: usize = b;
    while i < e
        invariant
            b <= i <= e <= s.len(),
            r@ == s@.subrange(b as int, i as int),
        decreases e - i,
    {
        r.push(s[i]);
        i = i + 1;
    }
    r
}

/// First index at or after `start` that holds `c`, or the length.
pub fn find_char(s: &Vec<char>, start: usize, c: char) -> (r: usize)
    requires
        start <= s.len(),
    ensures
        r == find_char_from(s@, start as int, c),
        start <= r <= s.len(),
{
    let mut i = start;
    while i < s.len() && s[i] != c
        invariant
            start <= i <= s.len(),
            find_char_from(s@, i as int, c) == find_char_from(s@, start as int, c),
        decreases s.len() - i,
    {
        i = i + 1;
    }
    proof {
        lemma_find_char_bounds(s@, start as int, c);
    }
    i
}

/// First index at or after `start` that holds whitespace, or the length.
pub fn find_space(s: &Vec<char>, start: usize) -> (r: usize)
    requires
        start <= s.len(),
    ensures
        r == find_space_from(s@, start as int),
        start <= r <= s.len(),
{
    let mut i = start;
    while i < s.len() && !is_space_char(s[i])
        invariant
            start <= i <= s.len(),
            find_space_from(s@, i as int) == find_space_from(s@, start as int),
        decreases s.len() - i,
    {
        i = i + 1;
    }
    proof {
        lemma_find_space_bounds(s@, start as int);
    }
    i
}

/// First index at or after `start` that holds no whitespace, or the length.
pub fn find_nonspace(s: &Vec<char>, start: usize) -> (r: usize)
    requires
        start <= s.len(),
    ensures
        r == find_nonspace_from(s@, start as int),
        start <= r <= s.len(),
{
    let mut i = start;
    while i < s.len() && is_space_char(s[i])
        invariant
            start <= i <= s.len(),
            find_nonspace_from(s@, i as int) == find_nonspace_from(s@, start as int),
        decreases s.len() - i,
    {
        i = i + 1;
    }
    proof {
        lemma_find_nonspace_bounds(s@, start as int);
    }
    i
}

/// The lines of `s`, as `str::lines` yields them.
pub fn split_lines(s: &Vec<char>) -> (r: Vec<Vec<char>>)
    ensures
        views(r@) == lines(s@),
{
    let mut r: Vec<Vec<char>> = Vec::new();
    let mut start: usize = 0;
    while start < s.len()
        invariant
            start <= s.len(),
            views(r@) + lines_from(s@, start as int) == lines(s@),
        decreases s.len() - start,
    {
        let e = find_char(s, start, '\n');
        let ghost old_r = views(r@);
        if e < s.len() {
            let mut piece = copy_range(s, start, e);
            if piece.len() > 0 && piece[piece.len() - 1] == '\r' {
                piece.pop();
            }
            assert(piece@ == strip_cr(s@.subrange(start as int, e as int)));
            r.push(piece);
            assert(views(r@) == old_r.push(piece@));
            assert(lines_from(s@, start as int) == seq![piece@] + lines_from(s@, e + 1));
            assert(views(r@) + lines_from(s@, e + 1) =~= old_r + lines_from(s@, start as int));
            start = e + 1;
        } else {
            let piece = copy_range(s, start, s.len());
            r.push(piece);
            assert(views(r@) == old_r.push(piece@));
            assert(lines_from(s@, s.len() as int) =~= seq![]);
            assert(views(r@) + lines_from(s@, s.len() as int) =~= old_r + lines_from(s@, start as int));
            start = s.len();
        }
    }
    assert(lines_from(s@, start as int) =~= seq![]);
    assert(views(r@) =~= views(r@) + lines_from(s@, start as int));
    r
}

/// The pieces of `s` separated by `c`, as `str::split` yields them.
pub fn split_on(s: &Vec<char>, c: char) -> (r: Vec<Vec<char>>)
    ensures
        views(r@) == split(s@, c),
        r@.len() >= 1,
{
    let mut r: Vec<Vec<char>> = Vec::new();
    let mut start: usize = 0;
    loop
        invariant
            start <= s.len(),
            views(r@) + split_from(s@, start as int, c) == split(s@, c),
        decreases s.len() - start,
    {
        let e = find_char(s, start, c);
        let ghost old_r = views(r@);
        let piece = copy_range(s, start, e);
        r.push(piece);
        assert(views(r@) == old_r.push(piece@));
        if e < s.len() {
            assert(split_from(s@, start as int, c) == seq![piece@] + split_from(s@, e + 1, c));
            assert(views(r@) + split_from(s@, e + 1, c) =~= old_r + split_from(s@, start as int, c));
            start = e + 1;
        } else {
            assert(split_from(s@, start as int, c) == seq![piece@]);
            assert(views(r@) =~= old_r + split_from(s@, start as int, c));
            return r;
        }
    }
}

/// The whitespace-separated words of `s`, as `str::split_whitespace` yields them.
pub fn split_words(s: &Vec<char>) -> (r: Vec<Vec<char>>)
    ensures
        views(r@) == words(s@),
{
    let mut r: Vec<Vec<char>> = Vec::new();
    let mut start: usize = 0;
    while start < s.len()
        invariant
            start <= s.len(),
            views(r@) + words_from(s@, start as int) == words(s@),
        decreases s.len() - start,
    {
        let ghost old_r = views(r@);
        let b = find_nonspace(s, start);
        if b >= s.len() {
            assert(words_from(s@, start as int) =~= seq![]);
            assert(words_from(s@, s.len() as int) =~= seq![]);
            start = s.len();
        } else {
            let e = find_space(s, b);
            proof {
                lemma_find_space_bounds(s@, b as int);
            }
            let piece = copy_range(s, b, e);
            r.push(piece);
            assert(views(r@) == old_r.push(piece@));
            assert(words_from(s@, start as int) == seq![piece@] + words_from(s@, e as int));
            assert(views(r@) + words_from(s@, e as int) =~= old_r + words_from(s@, start as int));
            start = e;
        }
    }
    assert(words_from(s@, start as int) =~= seq![]);
    assert(views(r@) =~= views(r@) + words_from(s@, start as int));
    r
}

/// `s` without leading and trailing whitespace (`str::trim`).
pub fn trim_chars(s: &Vec<char>) -> (r: Vec<char>)
    ensures
        r@ == trim(s@),
{
    let b = find_nonspace(s, 0);
    let mut e = s.len();
    while e > 0 && is_space_char(s[e - 1])
        invariant
            e <= s.len(),
            trim_end_from(s@, e as int) == trim_end_from(s@, s.len() as int),
        decreases e,
    {
        e = e - 1;
    }
    if b < e {
        copy_range(s, b, e)
    } else {
        Vec::new()
    }
}

/// Whether `s` begins with `p`.
pub fn starts_with_chars(s: &Vec<char>, p: &Vec<char>) -> (r: bool)
    ensures
        r == starts_with(s@, p@),
{
    if p.len() > s.len() {
        return false;
    }
    let head = copy_range(s, 0, p.len());
    chars_eq(&head, p)
}

/// Whether `p` occurs in `s`.
pub fn contains_chars(s: &Vec<char>, p: &Vec<char>) -> (r: bool)
    ensures
        r == contains_seq(s@, p@),
{
    if p.len() > s.len() {
        return false;
    }
    let last = s.len() - p.len();
    let mut i: usize = 0;
    loop
        invariant
            last == s.len() - p.len(),
            i <= last,
            forall|k: int| 0 <= k < i ==> #[trigger] s@.subrange(k, k + p.len()) != p@,
        decreases last - i,
    {
        let window = copy_range(s, i, i + p.len());
        if chars_eq(&window, p) {
            return true;
        }
        if i == last {
            return false;
        }
        i = i + 1;
    }
}

/// Whether `c` occurs in `s`.
pub fn contains_char(s: &Vec<char>, c: char) -> (r: bool)
    ensures
        r == s@.contains(c),
{
    let i = find_char(s, 0, c);
    proof {
        lemma_find_char_bounds(s@, 0, c);
    }
    i < s.len()
}

} // verus!
