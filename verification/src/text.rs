//! Text as a sequence of characters: searching, trimming, joining, ordering,
//! and the decimal and hexadecimal forms of numbers.

use vstd::prelude::*;
use vstd::string::*;

verus! {

// ---------------------------------------------------------------------------
// Characters
// ---------------------------------------------------------------------------

/// Every character of `s` is ASCII.
pub open spec fn ascii_only(s: Seq<char>) -> bool {
    forall|i: int| 0 <= i < s.len() ==> (#[trigger] s[i] as u32) < 128
}

pub open spec fn is_digit(c: char) -> bool {
    '0' <= c <= '9'
}

/// An ASCII letter or digit.
pub open spec fn is_ascii_alnum(c: char) -> bool {
    is_digit(c) || 'a' <= c <= 'z' || 'A' <= c <= 'Z'
}

pub open spec fn to_ascii_lower(c: char) -> char {
    if 'A' <= c <= 'Z' {
        ((c as int) + 32) as char
    } else {
        c
    }
}

pub open spec fn to_ascii_upper(c: char) -> char {
    if 'a' <= c <= 'z' {
        ((c as int) - 32) as char
    } else {
        c
    }
}

/// `s` with its ASCII letters in lower case.
pub open spec fn ascii_lower(s: Seq<char>) -> Seq<char> {
    s.map_values(|c: char| to_ascii_lower(c))
}

/// `s` with its ASCII letters in upper case.
pub open spec fn ascii_upper(s: Seq<char>) -> Seq<char> {
    s.map_values(|c: char| to_ascii_upper(c))
}

/// The characters with Unicode's `White_Space` property.
pub open spec fn is_white_space(c: char) -> bool {
    let u = c as u32;
    ||| 0x09 <= u <= 0x0D
    ||| u == 0x20
    ||| u == 0x85
    ||| u == 0xA0
    ||| u == 0x1680
    ||| 0x2000 <= u <= 0x200A
    ||| u == 0x2028
    ||| u == 0x2029
    ||| u == 0x202F
    ||| u == 0x205F
    ||| u == 0x3000
}

/// Whether `c` is an ASCII letter or digit.
pub fn ascii_alnum(c: char) -> (r: bool)
    ensures
        r == is_ascii_alnum(c),
{
    ('0' <= c && c <= '9') || ('a' <= c && c <= 'z') || ('A' <= c && c <= 'Z')
}

/// `c` in lower case, if it is an ASCII letter.
pub fn ascii_lower_char(c: char) -> (r: char)
    ensures
        r == to_ascii_lower(c),
{
    if 'A' <= c && c <= 'Z' {
        (c as u8 + 32) as char
    } else {
        c
    }
}

/// Whether `c` is white space.
pub fn white_space(c: char) -> (r: bool)
    ensures
        r == is_white_space(c),
{
    let u: u32 = c as u32;
    (0x09 <= u && u <= 0x0D) || u == 0x20 || u == 0x85 || u == 0xA0 || u == 0x1680 || (0x2000 <= u
        && u <= 0x200A) || u == 0x2028 || u == 0x2029 || u == 0x202F || u == 0x205F || u == 0x3000
}

// ---------------------------------------------------------------------------
// Between strings and characters
// ---------------------------------------------------------------------------

/// The characters of `s`, in order.
pub fn to_chars(s: &str) -> (out: Vec<char>)
    ensures
        out@ == s@,
{
    let mut out: Vec<char> = Vec::new();
    for c in it: s.chars()
        invariant
            it.seq() == s@,
            out@ == s@.take(it.index() as int),
    {
        out.push(c);
    }
    out
}

/// The string of the characters `cs[from..to]`.
pub fn from_chars(cs: &Vec<char>, from: usize, to: usize) -> (out: String)
    requires
        from <= to <= cs@.len(),
    ensures
        out@ == cs@.subrange(from as int, to as int),
{
    let mut out = String::new();
    for i in from..to
        invariant
            from <= i <= to <= cs@.len(),
            out@ == cs@.subrange(from as int, i as int),
    {
        out.push(cs[i]);
        assert(cs@.subrange(from as int, i + 1) =~= cs@.subrange(from as int, i as int).push(
            cs@[i as int],
        ));
    }
    out
}

/// Whether two texts are the same.
pub fn same_text(a: &str, b: &str) -> (r: bool)
    ensures
        r == (a@ == b@),
{
    let x = to_chars(a);
    let y = to_chars(b);
    if x.len() != y.len() {
        return false;
    }
    for i in 0..x.len()
        invariant
            x@ == a@,
            y@ == b@,
            x@.len() == y@.len(),
            x@.take(i as int) == y@.take(i as int),
    {
        if x[i] != y[i] {
            assert(a@[i as int] != b@[i as int]);
            return false;
        }
        assert(x@.take(i + 1) =~= x@.take(i as int).push(x@[i as int]));
        assert(y@.take(i + 1) =~= y@.take(i as int).push(y@[i as int]));
    }
    assert(x@.take(x@.len() as int) =~= x@);
    assert(y@.take(y@.len() as int) =~= y@);
    true
}

// ---------------------------------------------------------------------------
// Searching
// ---------------------------------------------------------------------------

/// `needle` stands in `hay` at position `i`.
pub open spec fn occurs_at(hay: Seq<char>, needle: Seq<char>, i: int) -> bool {
    0 <= i && i + needle.len() <= hay.len() && hay.subrange(i, i + needle.len()) == needle
}

/// `needle` stands somewhere in `hay`.
pub open spec fn contains_text(hay: Seq<char>, needle: Seq<char>) -> bool {
    exists|i: int| occurs_at(hay, needle, i)
}

/// The first position from `from` on at which `needle` stands in `hay`.
pub open spec fn find_from(hay: Seq<char>, needle: Seq<char>, from: int) -> Option<int>
    decreases hay.len() - from + 1,
{
    if from + needle.len() > hay.len() {
        None
    } else if occurs_at(hay, needle, from) {
        Some(from)
    } else {
        find_from(hay, needle, from + 1)
    }
}

/// `s` begins with `prefix`.
pub open spec fn begins_with(s: Seq<char>, prefix: Seq<char>) -> bool {
    occurs_at(s, prefix, 0)
}

/// `find_from` gives a position at which the text stands, and none stands between.
pub proof fn lemma_find_from(hay: Seq<char>, needle: Seq<char>, from: int)
    requires
        0 <= from,
    ensures
        find_from(hay, needle, from) matches Some(i) ==> from <= i && occurs_at(hay, needle, i)
            && forall|j: int| from <= j < i ==> !#[trigger] occurs_at(hay, needle, j),
        find_from(hay, needle, from) is None ==> forall|j: int|
            from <= j ==> !#[trigger] occurs_at(hay, needle, j),
    decreases hay.len() - from + 1,
{
    if from + needle.len() > hay.len() {
    } else if occurs_at(hay, needle, from) {
    } else {
        lemma_find_from(hay, needle, from + 1);
    }
}

/// Whether `needle` stands in `hay` at position `i`.
pub fn stands_at(hay: &Vec<char>, needle: &Vec<char>, i: usize) -> (r: bool)
    ensures
        r == occurs_at(hay@, needle@, i as int),
{
    if needle.len() > hay.len() || i > hay.len() - needle.len() {
        return false;
    }
    for k in 0..needle.len()
        invariant
            i + needle.len() <= hay.len(),
            forall|j: int| 0 <= j < k ==> hay@[i + j] == #[trigger] needle@[j],
    {
        if hay[i + k] != needle[k] {
            assert(hay@.subrange(i as int, i + needle@.len())[k as int] != needle@[k as int]);
            return false;
        }
    }
    assert(hay@.subrange(i as int, i + needle@.len()) =~= needle@);
    true
}

/// The first position from `from` on at which `needle` stands in `hay`.
pub fn find_chars(hay: &Vec<char>, needle: &Vec<char>, from: usize) -> (r: Option<usize>)
    ensures
        match r {
            Some(i) => find_from(hay@, needle@, from as int) == Some(i as int),
            None => find_from(hay@, needle@, from as int) is None,
        },
{
    let mut i: usize = from;
    while needle.len() <= hay.len() && i <= hay.len() - needle.len()
        invariant
            from <= i,
            find_from(hay@, needle@, from as int) == find_from(hay@, needle@, i as int),
        decreases hay@.len() + 1 - i,
    {
        if stands_at(hay, needle, i) {
            return Some(i);
        }
        if i == hay.len() - needle.len() {
            assert(find_from(hay@, needle@, i + 1) is None);
            return None;
        }
        i = i + 1;
    }
    None
}

/// Whether `needle` stands somewhere in `hay`.
pub fn contains(hay: &str, needle: &str) -> (r: bool)
    ensures
        r == contains_text(hay@, needle@),
{
    let h = to_chars(hay);
    let n = to_chars(needle);
    proof {
        lemma_find_from(h@, n@, 0);
    }
    match find_chars(&h, &n, 0) {
        Some(i) => {
            assert(occurs_at(hay@, needle@, i as int));
            true
        },
        None => false,
    }
}

/// Whether `s` begins with `prefix`.
pub fn starts_with(s: &str, prefix: &str) -> (r: bool)
    ensures
        r == begins_with(s@, prefix@),
{
    let c = to_chars(s);
    let p = to_chars(prefix);
    stands_at(&c, &p, 0)
}

/// Whether `c` is one of the characters of `s`.
pub fn contains_char(s: &str, c: char) -> (r: bool)
    ensures
        r == s@.contains(c),
{
    let cs = to_chars(s);
    for i in 0..cs.len()
        invariant
            cs@ == s@,
            forall|j: int| 0 <= j < i ==> cs@[j] != c,
    {
        if cs[i] == c {
            assert(s@[i as int] == c);
            return true;
        }
    }
    false
}

/// The part of `s` behind the last `c`, or all of `s` where there is no `c`.
pub open spec fn after_last(s: Seq<char>, c: char) -> Seq<char>
    decreases s.len(),
{
    if s.len() == 0 || s.last() == c {
        Seq::empty()
    } else {
        after_last(s.drop_last(), c).push(s.last())
    }
}

/// What stands behind the last `c` of a text is a suffix of it without a `c`,
/// and is as long as it can be.
pub proof fn lemma_after_last(s: Seq<char>, c: char)
    ensures
        after_last(s, c).len() <= s.len(),
        after_last(s, c) == s.subrange(s.len() - after_last(s, c).len(), s.len() as int),
        !after_last(s, c).contains(c),
        after_last(s, c).len() < s.len() ==> s[s.len() - after_last(s, c).len() - 1] == c,
    decreases s.len(),
{
    if s.len() == 0 || s.last() == c {
        assert(s.subrange(s.len() as int, s.len() as int) =~= Seq::empty());
    } else {
        let rest = s.drop_last();
        lemma_after_last(rest, c);
        let tail = after_last(rest, c);
        assert(after_last(s, c) =~= s.subrange(s.len() - tail.len() - 1, s.len() as int));
        assert forall|i: int| 0 <= i < after_last(s, c).len() implies after_last(s, c)[i] != c by {
            if i < tail.len() {
                assert(tail[i] == after_last(s, c)[i]);
            }
        }
    }
}

/// The part of `s` behind the last `c`, or all of `s` where there is no `c`.
pub fn last_part(s: &str, c: char) -> (part: String)
    ensures
        part@ == after_last(s@, c),
{
    let cs = to_chars(s);
    let mut start: usize = cs.len();
    proof {
        assert(cs@.take(start as int) =~= cs@);
        assert(cs@.subrange(start as int, cs@.len() as int) =~= Seq::empty());
        assert(after_last(cs@, c) =~= after_last(cs@, c) + Seq::empty());
    }
    while start > 0 && cs[start - 1] != c
        invariant
            start <= cs@.len(),
            after_last(cs@, c) == after_last(cs@.take(start as int), c) + cs@.subrange(
                start as int,
                cs@.len() as int,
            ),
        decreases start,
    {
        proof {
            let head = cs@.take(start as int);
            assert(head.drop_last() =~= cs@.take(start - 1));
            assert(after_last(head.drop_last(), c).push(head.last()) + cs@.subrange(
                start as int,
                cs@.len() as int,
            ) =~= after_last(cs@.take(start - 1), c) + cs@.subrange(start - 1, cs@.len() as int));
        }
        start = start - 1;
    }
    assert(after_last(cs@.take(start as int), c) =~= Seq::empty());
    assert(after_last(cs@, c) =~= cs@.subrange(start as int, cs@.len() as int));
    from_chars(&cs, start, cs.len())
}

// ---------------------------------------------------------------------------
// Trimming
// ---------------------------------------------------------------------------

/// `s` without the white space in front.
pub open spec fn trim_front(s: Seq<char>) -> Seq<char>
    decreases s.len(),
{
    if s.len() > 0 && is_white_space(s.first()) {
        trim_front(s.drop_first())
    } else {
        s
    }
}

/// `s` without the white space at the end.
pub open spec fn trim_back(s: Seq<char>) -> Seq<char>
    decreases s.len(),
{
    if s.len() > 0 && is_white_space(s.last()) {
        trim_back(s.drop_last())
    } else {
        s
    }
}

/// `s` without the white space on either side.
pub open spec fn trimmed(s: Seq<char>) -> Seq<char> {
    trim_back(trim_front(s))
}

/// `s` without the white space on either side.
pub fn trim(s: &str) -> (r: String)
    ensures
        r@ == trimmed(s@),
{
    let cs = to_chars(s);
    let mut from: usize = 0;
    assert(cs@.skip(0) =~= cs@);
    while from < cs.len() && white_space(cs[from])
        invariant
            from <= cs@.len(),
            trim_front(cs@) == trim_front(cs@.skip(from as int)),
        decreases cs@.len() - from,
    {
        assert(cs@.skip(from as int).drop_first() =~= cs@.skip(from + 1));
        from = from + 1;
    }
    let mut to: usize = cs.len();
    assert(trim_front(cs@) == cs@.skip(from as int));
    assert(cs@.skip(from as int) =~= cs@.subrange(from as int, to as int));
    while to > from && white_space(cs[to - 1])
        invariant
            from <= to <= cs@.len(),
            trim_back(trim_front(cs@)) == trim_back(cs@.subrange(from as int, to as int)),
        decreases to,
    {
        assert(cs@.subrange(from as int, to as int).drop_last() =~= cs@.subrange(
            from as int,
            to - 1,
        ));
        to = to - 1;
    }
    from_chars(&cs, from, to)
}

// ---------------------------------------------------------------------------
// Joining and replacing
// ---------------------------------------------------------------------------

/// The views of a sequence of strings.
pub open spec fn texts(parts: Seq<String>) -> Seq<Seq<char>> {
    parts.map_values(|s: String| s@)
}

/// Appends a string to a list.
pub fn push_text(parts: &mut Vec<String>, s: String)
    ensures
        texts(final(parts)@) == texts(old(parts)@).push(s@),
{
    let ghost before = parts@;
    let ghost value = s;
    parts.push(s);
    assert(texts(before.push(value)) =~= texts(before).push(value@));
}

/// The parts one after the other, with `sep` between neighbours.
pub open spec fn joined(parts: Seq<Seq<char>>, sep: Seq<char>) -> Seq<char>
    decreases parts.len(),
{
    if parts.len() == 0 {
        Seq::empty()
    } else if parts.len() == 1 {
        parts[0]
    } else {
        joined(parts.drop_last(), sep) + sep + parts.last()
    }
}

/// The strings one after the other, with `sep` between neighbours.
pub fn join(parts: &Vec<String>, sep: &str) -> (r: String)
    ensures
        r@ == joined(texts(parts@), sep@),
{
    let mut r = String::new();
    for i in 0..parts.len()
        invariant
            r@ == joined(texts(parts@).take(i as int), sep@),
    {
        let ghost before = texts(parts@).take(i as int);
        if i > 0 {
            r.append(sep);
        }
        r.append(parts[i].as_str());
        proof {
            let now = texts(parts@).take(i + 1);
            assert(now.drop_last() =~= before);
            assert(now.last() == parts@[i as int]@);
            assert(r@ =~= joined(now, sep@));
        }
    }
    assert(texts(parts@).take(parts@.len() as int) =~= texts(parts@));
    r
}

/// `s` with every `c` replaced by `with`.
pub open spec fn with_replaced(s: Seq<char>, c: char, with: Seq<char>) -> Seq<char>
    decreases s.len(),
{
    if s.len() == 0 {
        Seq::empty()
    } else if s.last() == c {
        with_replaced(s.drop_last(), c, with) + with
    } else {
        with_replaced(s.drop_last(), c, with).push(s.last())
    }
}

/// `s` with every `c` replaced by `with`.
pub fn replace_char(s: &str, c: char, with: &str) -> (r: String)
    ensures
        r@ == with_replaced(s@, c, with@),
{
    let cs = to_chars(s);
    let mut r = String::new();
    for i in 0..cs.len()
        invariant
            r@ == with_replaced(cs@.take(i as int), c, with@),
    {
        assert(cs@.take(i + 1).drop_last() =~= cs@.take(i as int));
        if cs[i] == c {
            r.append(with);
        } else {
            r.push(cs[i]);
        }
    }
    assert(cs@.take(cs@.len() as int) =~= cs@);
    r
}

/// `s` with every `from` in it, taken from left to right, replaced by `to`.
pub open spec fn with_text_replaced(s: Seq<char>, from: Seq<char>, to: Seq<char>) -> Seq<char>
    decreases s.len(),
{
    match find_from(s, from, 0) {
        Some(i) => if from.len() > 0 && 0 <= i && i + from.len() <= s.len() {
            s.take(i) + to + with_text_replaced(s.skip(i + from.len()), from, to)
        } else {
            s
        },
        None => s,
    }
}

/// Joined parts are the first of them, the separator, and the others joined.
pub proof fn lemma_joined_front(parts: Seq<Seq<char>>, sep: Seq<char>)
    requires
        parts.len() > 1,
    ensures
        joined(parts, sep) == parts[0] + sep + joined(parts.drop_first(), sep),
    decreases parts.len(),
{
    let rest = parts.drop_first();
    if parts.len() == 2 {
        assert(parts.drop_last()[0] == parts[0]);
        assert(rest[0] == parts.last());
        assert(joined(parts.drop_last(), sep) == parts[0]);
        assert(joined(rest, sep) == rest[0]);
    } else {
        lemma_joined_front(parts.drop_last(), sep);
        assert(parts.drop_last().drop_first() =~= rest.drop_last());
        assert(joined(parts, sep) =~= parts[0] + sep + joined(rest, sep));
    }
}

/// A text without any character of the separator stands in joined parts exactly
/// where it stands in one of them.
pub proof fn lemma_joined_contains(parts: Seq<Seq<char>>, sep: Seq<char>, needle: Seq<char>)
    requires
        needle.len() > 0,
        forall|i: int| 0 <= i < needle.len() ==> !sep.contains(#[trigger] needle[i]),
        sep.len() > 0,
    ensures
        contains_text(joined(parts, sep), needle) <==> exists|k: int|
            0 <= k < parts.len() && contains_text(#[trigger] parts[k], needle),
    decreases parts.len(),
{
    let s = joined(parts, sep);
    if parts.len() == 0 {
        assert forall|i: int| !occurs_at(s, needle, i) by {}
    } else if parts.len() == 1 {
        if contains_text(s, needle) {
            assert(contains_text(parts[0], needle));
        }
    } else {
        let rest = parts.drop_first();
        let tail = joined(rest, sep);
        lemma_joined_front(parts, sep);
        lemma_joined_contains(rest, sep, needle);
        lemma_contains_apart(parts[0], sep, tail, needle);
        if contains_text(tail, needle) {
            let k = choose|k: int|
                0 <= k < rest.len() && contains_text(#[trigger] rest[k], needle);
            assert(parts[k + 1] == rest[k]);
            assert(contains_text(parts[k + 1], needle));
        }
        if contains_text(parts[0], needle) {
            assert(exists|k: int| 0 <= k < parts.len() && contains_text(#[trigger] parts[k], needle));
        }
        if exists|k: int| 0 <= k < parts.len() && contains_text(#[trigger] parts[k], needle) {
            let k = choose|k: int|
                0 <= k < parts.len() && contains_text(#[trigger] parts[k], needle);
            if k > 0 {
                assert(rest[k - 1] == parts[k]);
                assert(contains_text(rest[k - 1], needle));
            }
        }
    }
}

proof fn lemma_contains_apart(
    first: Seq<char>,
    sep: Seq<char>,
    rest: Seq<char>,
    needle: Seq<char>,
)
    requires
        needle.len() > 0,
        forall|i: int| 0 <= i < needle.len() ==> !sep.contains(#[trigger] needle[i]),
        sep.len() > 0,
    ensures
        contains_text(first + sep + rest, needle) <==> contains_text(first, needle)
            || contains_text(rest, needle),
{
    let s = first + sep + rest;
    let n = first.len() as int;
    let m = n + sep.len();
    if contains_text(s, needle) {
        let i = choose|i: int| occurs_at(s, needle, i);
        let end = i + needle.len();
        if end <= n {
            assert(first.subrange(i, end) =~= s.subrange(i, end));
            assert(occurs_at(first, needle, i));
        } else if i >= m {
            assert(rest.subrange(i - m, end - m) =~= s.subrange(i, end));
            assert(occurs_at(rest, needle, i - m));
        } else {
            let j = if i < n {
                n
            } else {
                i
            };
            assert(s.subrange(i, end)[j - i] == s[j]);
            assert(sep[j - n] == s[j]);
            assert(sep.contains(needle[j - i]));
            assert(false);
        }
    }
    if contains_text(first, needle) {
        let i = choose|i: int| occurs_at(first, needle, i);
        assert(s.subrange(i, i + needle.len()) =~= first.subrange(i, i + needle.len()));
        assert(occurs_at(s, needle, i));
    }
    if contains_text(rest, needle) {
        let i = choose|i: int| occurs_at(rest, needle, i);
        assert(s.subrange(m + i, m + i + needle.len()) =~= rest.subrange(i, i + needle.len()));
        assert(occurs_at(s, needle, m + i));
    }
}

proof fn lemma_nothing_replaced(s: Seq<char>, from: Seq<char>, to: Seq<char>)
    requires
        from.len() > 1,
        !s.contains(from[1]),
    ensures
        with_text_replaced(s, from, to) == s,
{
    lemma_find_from(s, from, 0);
    if let Some(i) = find_from(s, from, 0) {
        assert(s.subrange(i, i + from.len())[1] == s[i + 1]);
        assert(s.contains(from[1]));
    }
}

proof fn lemma_first_replaced(
    first: Seq<char>,
    from: Seq<char>,
    rest: Seq<char>,
    to: Seq<char>,
)
    requires
        from.len() > 1,
        from[1] != from[0],
        !first.contains(from[1]),
    ensures
        with_text_replaced(first + from + rest, from, to) == first + to + with_text_replaced(
            rest,
            from,
            to,
        ),
{
    let s = first + from + rest;
    let n = first.len() as int;
    lemma_find_from(s, from, 0);
    assert(s.subrange(n, n + from.len()) =~= from);
    assert(occurs_at(s, from, n));
    let i = find_from(s, from, 0)->0;
    if i < n {
        assert(s.subrange(i, i + from.len())[1] == s[i + 1]);
        if i + 1 < n {
            assert(first[i + 1] == from[1]);
        } else {
            assert(s[i + 1] == from[0]);
        }
        assert(false);
    }
    assert(i == n);
    assert(s.take(n) =~= first);
    assert(s.skip(n + from.len()) =~= rest);
}

/// To replace the separator of joined parts by another one is to join them with
/// that one, where the separator's second character is neither its first nor in
/// any part.
pub proof fn lemma_separator_replaced(parts: Seq<Seq<char>>, sep: Seq<char>, with: Seq<char>)
    requires
        sep.len() > 1,
        sep[1] != sep[0],
        forall|k: int| 0 <= k < parts.len() ==> !(#[trigger] parts[k]).contains(sep[1]),
    ensures
        with_text_replaced(joined(parts, sep), sep, with) == joined(parts, with),
    decreases parts.len(),
{
    if parts.len() <= 1 {
        lemma_nothing_replaced(joined(parts, sep), sep, with);
    } else {
        let rest = parts.drop_first();
        assert forall|k: int| 0 <= k < rest.len() implies !(#[trigger] rest[k]).contains(
            sep[1],
        ) by {
            assert(rest[k] == parts[k + 1]);
        }
        lemma_separator_replaced(rest, sep, with);
        lemma_joined_front(parts, sep);
        lemma_joined_front(parts, with);
        assert(!parts[0].contains(sep[1]));
        lemma_first_replaced(parts[0], sep, joined(rest, sep), with);
    }
}

/// Whether two texts are the same but for the case of ASCII letters.
pub fn same_ignoring_ascii_case(a: &str, b: &str) -> (r: bool)
    ensures
        r == (ascii_lower(a@) == ascii_lower(b@)),
{
    let x = lower_ascii(a);
    let y = lower_ascii(b);
    same_text(x.as_str(), y.as_str())
}

/// `s` with its ASCII letters in lower case.
pub fn lower_ascii(s: &str) -> (r: String)
    ensures
        r@ == ascii_lower(s@),
{
    let cs = to_chars(s);
    let mut r = String::new();
    for i in 0..cs.len()
        invariant
            cs@ == s@,
            r@ == ascii_lower(s@).take(i as int),
    {
        r.push(ascii_lower_char(cs[i]));
        assert(ascii_lower(s@).take(i + 1) =~= ascii_lower(s@).take(i as int).push(
            ascii_lower(s@)[i as int],
        ));
    }
    assert(ascii_lower(s@).take(s@.len() as int) =~= ascii_lower(s@));
    r
}

// ---------------------------------------------------------------------------
// Numbers
// ---------------------------------------------------------------------------

/// The digit `d`, for `d` below sixteen.
pub open spec fn digit(d: nat) -> char {
    if d < 10 {
        (d + 48) as char
    } else {
        (d + 55) as char
    }
}

/// `n` in decimal.
pub open spec fn decimal(n: nat) -> Seq<char>
    decreases n,
{
    if n < 10 {
        seq![digit(n)]
    } else {
        decimal(n / 10).push(digit(n % 10))
    }
}

/// `i` in decimal, with a minus sign where it is negative.
pub open spec fn signed_decimal(i: int) -> Seq<char> {
    if i < 0 {
        seq!['-'] + decimal((-i) as nat)
    } else {
        decimal(i as nat)
    }
}

/// `n` in upper-case hexadecimal, in at least four digits.
pub open spec fn hex4(n: nat) -> Seq<char>
    decreases n,
{
    if n < 0x10000 {
        seq![digit(n / 0x1000), digit(n / 0x100 % 16), digit(n / 0x10 % 16), digit(n % 16)]
    } else {
        hex4(n / 16).push(digit(n % 16))
    }
}

/// The decimal form of a number is made of digits, at least one.
pub proof fn lemma_decimal_digits(n: nat)
    ensures
        decimal(n).len() > 0,
        forall|i: int| 0 <= i < decimal(n).len() ==> is_digit(#[trigger] decimal(n)[i]),
    decreases n,
{
    if n >= 10 {
        lemma_decimal_digits(n / 10);
    }
}

fn digit_char(d: u8) -> (c: char)
    requires
        d < 16,
    ensures
        c == digit(d as nat),
{
    if d < 10 {
        (d + 48) as char
    } else {
        (d + 55) as char
    }
}

fn push_decimal(out: &mut String, n: u64)
    ensures
        final(out)@ == old(out)@ + decimal(n as nat),
    decreases n,
{
    if n >= 10 {
        push_decimal(out, n / 10);
    }
    out.push(digit_char((n % 10) as u8));
    assert(out@ =~= old(out)@ + decimal(n as nat));
}

/// `n` in decimal.
pub fn decimal_string(n: u64) -> (r: String)
    ensures
        r@ == decimal(n as nat),
{
    let mut r = String::new();
    push_decimal(&mut r, n);
    assert(r@ =~= decimal(n as nat));
    r
}

/// `i` in decimal, with a minus sign where it is negative.
pub fn signed_decimal_string(i: i32) -> (r: String)
    ensures
        r@ == signed_decimal(i as int),
{
    let mut r = String::new();
    if i < 0 {
        r.push('-');
        push_decimal(&mut r, (-(i as i64)) as u64);
    } else {
        push_decimal(&mut r, i as u64);
    }
    assert(r@ =~= signed_decimal(i as int));
    r
}

fn push_hex4(out: &mut String, n: u32)
    ensures
        final(out)@ == old(out)@ + hex4(n as nat),
    decreases n,
{
    if n < 0x10000 {
        out.push(digit_char((n / 0x1000) as u8));
        out.push(digit_char((n / 0x100 % 16) as u8));
        out.push(digit_char((n / 0x10 % 16) as u8));
    } else {
        push_hex4(out, n / 16);
    }
    out.push(digit_char((n % 16) as u8));
    assert(out@ =~= old(out)@ + hex4(n as nat));
}

/// `n` in upper-case hexadecimal, in at least four digits.
pub fn hex4_string(n: u32) -> (r: String)
    ensures
        r@ == hex4(n as nat),
{
    let mut r = String::new();
    push_hex4(&mut r, n);
    assert(r@ =~= hex4(n as nat));
    r
}

/// The number that a row of decimal digits stands for.
pub open spec fn digits_value(s: Seq<char>) -> nat
    decreases s.len(),
{
    if s.len() == 0 {
        0
    } else {
        (digits_value(s.drop_last()) * 10 + (s.last() as int - 48)) as nat
    }
}

/// `s` is a row of at least one decimal digit.
pub open spec fn is_digits(s: Seq<char>) -> bool {
    s.len() > 0 && forall|i: int| 0 <= i < s.len() ==> is_digit(#[trigger] s[i])
}

/// The unsigned number that `s` writes in decimal: an optional plus sign and
/// digits only, with a value that fits in 64 bits.
pub open spec fn parsed_u64(s: Seq<char>) -> Option<u64> {
    let body = if s.len() > 0 && s.first() == '+' {
        s.drop_first()
    } else {
        s
    };
    if is_digits(body) && digits_value(body) <= u64::MAX {
        Some(digits_value(body) as u64)
    } else {
        None
    }
}

/// The unsigned number that `s` writes in decimal.
pub fn parse_u64(s: &str) -> (r: Option<u64>)
    ensures
        r == parsed_u64(s@),
{
    let cs = to_chars(s);
    let start: usize = if cs.len() > 0 && cs[0] == '+' {
        1
    } else {
        0
    };
    let ghost body = cs@.skip(start as int);
    assert(cs@.len() > 0 && cs@.first() == '+' ==> body =~= cs@.drop_first());
    assert(start == 0 ==> body =~= cs@);
    if start == cs.len() {
        return None;
    }
    let mut value: u64 = 0;
    let mut fits: bool = true;
    assert(body.take(0) =~= Seq::empty());
    for i in start..cs.len()
        invariant
            start <= i <= cs@.len(),
            body == cs@.skip(start as int),
            forall|j: int| 0 <= j < i - start ==> is_digit(#[trigger] body[j]),
            fits ==> value == digits_value(body.take(i - start)),
            !fits ==> digits_value(body.take(i - start)) > u64::MAX,
            cs@ == s@,
            parsed_u64(s@) is Some ==> is_digits(body),
    {
        let c = cs[i];
        assert(c == body[i - start]);
        if !('0' <= c && c <= '9') {
            return None;
        }
        let d: u64 = (c as u32 - 48) as u64;
        proof {
            let now = body.take(i - start + 1);
            assert(now.drop_last() =~= body.take(i - start));
        }
        if fits {
            if value <= (u64::MAX - d) / 10 {
                value = value * 10 + d;
            } else {
                fits = false;
            }
        }
    }
    assert(body.take(body.len() as int) =~= body);
    if fits {
        Some(value)
    } else {
        None
    }
}

// ---------------------------------------------------------------------------
// Order
// ---------------------------------------------------------------------------

/// `a` comes before `b` in the dictionary order of their characters.
pub open spec fn text_less(a: Seq<char>, b: Seq<char>) -> bool
    decreases a.len(),
{
    b.len() > 0 && (a.len() == 0 || a[0] < b[0] || (a[0] == b[0] && text_less(
        a.drop_first(),
        b.drop_first(),
    )))
}

/// No text comes before itself.
pub proof fn lemma_text_less_irreflexive(a: Seq<char>)
    ensures
        !text_less(a, a),
    decreases a.len(),
{
    if a.len() > 0 {
        lemma_text_less_irreflexive(a.drop_first());
    }
}

/// The order is transitive.
pub proof fn lemma_text_less_transitive(a: Seq<char>, b: Seq<char>, c: Seq<char>)
    requires
        text_less(a, b),
        text_less(b, c),
    ensures
        text_less(a, c),
    decreases a.len(),
{
    if a.len() > 0 && a[0] == b[0] && b[0] == c[0] {
        lemma_text_less_transitive(a.drop_first(), b.drop_first(), c.drop_first());
    }
}

/// Of two different texts one comes before the other.
pub proof fn lemma_text_less_total(a: Seq<char>, b: Seq<char>)
    requires
        a != b,
    ensures
        text_less(a, b) || text_less(b, a),
    decreases a.len(),
{
    if a.len() > 0 && b.len() > 0 && a[0] == b[0] {
        if a.drop_first() == b.drop_first() {
            assert(a =~= seq![a[0]] + a.drop_first());
            assert(b =~= seq![b[0]] + b.drop_first());
            assert(false);
        }
        lemma_text_less_total(a.drop_first(), b.drop_first());
    } else if a.len() == 0 && b.len() == 0 {
        assert(a =~= b);
    }
}

/// Whether `a` comes before `b` in the dictionary order.
pub fn comes_before(a: &str, b: &str) -> (r: bool)
    ensures
        r == text_less(a@, b@),
{
    let x = to_chars(a);
    let y = to_chars(b);
    let mut i: usize = 0;
    assert(x@.skip(0) =~= x@);
    assert(y@.skip(0) =~= y@);
    while i < x.len() && i < y.len() && x[i] == y[i]
        invariant
            i <= x@.len(),
            i <= y@.len(),
            text_less(x@, y@) == text_less(x@.skip(i as int), y@.skip(i as int)),
        decreases x@.len() - i,
    {
        assert(x@.skip(i as int).drop_first() =~= x@.skip(i + 1));
        assert(y@.skip(i as int).drop_first() =~= y@.skip(i + 1));
        i = i + 1;
    }
    i < y.len() && (i == x.len() || x[i] < y[i])
}

// ---------------------------------------------------------------------------
// Laws
// ---------------------------------------------------------------------------

/// Digits and letters are told apart by their ASCII codes, and a letter's two
/// cases are 32 codes apart.
pub proof fn law_letters_and_digits(c: char)
    ensures
        is_digit(c) <==> 48 <= c as u32 <= 57,
        is_ascii_alnum(c) <==> 48 <= c as u32 <= 57 || 65 <= c as u32 <= 90 || 97 <= c as u32
            <= 122,
        65 <= c as u32 <= 90 ==> to_ascii_lower(c) as u32 == c as u32 + 32,
        !(65 <= c as u32 <= 90) ==> to_ascii_lower(c) == c,
        97 <= c as u32 <= 122 ==> to_ascii_upper(c) as u32 == c as u32 - 32,
        !(97 <= c as u32 <= 122) ==> to_ascii_upper(c) == c,
{
}

/// Changing the case keeps the length and works on each character alone.
pub proof fn law_case_of_a_text(s: Seq<char>, i: int)
    requires
        0 <= i < s.len(),
    ensures
        ascii_lower(s).len() == s.len(),
        ascii_upper(s).len() == s.len(),
        ascii_lower(s)[i] == to_ascii_lower(s[i]),
        ascii_upper(s)[i] == to_ascii_upper(s[i]),
        ascii_only(s) ==> s[i] as u32 <= 127,
{
}

/// The white space of ASCII is the blank and what lies from the tabulator to the
/// carriage return; beyond ASCII there are nineteen more characters.
pub proof fn law_white_space(c: char)
    ensures
        c as u32 <= 127 ==> (is_white_space(c) <==> c == ' ' || c == '\t' || c == '\n' || c
            == '\u{B}' || c == '\u{C}' || c == '\r'),
        c as u32 > 127 ==> (is_white_space(c) <==> set![
            0x85u32,
            0xA0,
            0x1680,
            0x2000,
            0x2001,
            0x2002,
            0x2003,
            0x2004,
            0x2005,
            0x2006,
            0x2007,
            0x2008,
            0x2009,
            0x200A,
            0x2028,
            0x2029,
            0x202F,
            0x205F,
            0x3000,
        ].contains(c as u32)),
{
}

/// A text stands at a position exactly where every one of its characters does.
pub proof fn law_occurs_at(hay: Seq<char>, needle: Seq<char>, i: int)
    ensures
        occurs_at(hay, needle, i) <==> 0 <= i <= hay.len() - needle.len() && forall|k: int|
            0 <= k < needle.len() ==> hay[i + k] == #[trigger] needle[k],
{
    if occurs_at(hay, needle, i) {
        assert forall|k: int| 0 <= k < needle.len() implies hay[i + k] == #[trigger] needle[k] by {
            assert(hay.subrange(i, i + needle.len())[k] == hay[i + k]);
        }
    }
    if 0 <= i <= hay.len() - needle.len() && forall|k: int|
        0 <= k < needle.len() ==> hay[i + k] == #[trigger] needle[k] {
        assert(hay.subrange(i, i + needle.len()) =~= needle);
    }
}

/// A text is found in whatever is put around it, and one that is found divides
/// the other into what stands before it and what stands behind it.
pub proof fn law_contains_text(
    before: Seq<char>,
    needle: Seq<char>,
    behind: Seq<char>,
    hay: Seq<char>,
)
    ensures
        contains_text(before + needle + behind, needle),
        begins_with(needle + behind, needle),
        contains_text(hay, needle) ==> exists|i: int|
            0 <= i <= hay.len() - needle.len() && #[trigger] hay.take(i) + needle + hay.skip(
                i + needle.len(),
            ) == hay,
        begins_with(hay, needle) ==> needle + hay.skip(needle.len() as int) == hay,
{
    let whole = before + needle + behind;
    let n = before.len() as int;
    assert(whole.subrange(n, n + needle.len()) =~= needle);
    assert(occurs_at(whole, needle, n));
    assert((needle + behind).subrange(0, needle.len() as int) =~= needle);
    if contains_text(hay, needle) {
        let i = choose|i: int| occurs_at(hay, needle, i);
        lemma_parts_around(hay, needle, i);
    }
    if begins_with(hay, needle) {
        lemma_parts_around(hay, needle, 0);
        assert(hay.take(0) + needle =~= needle);
    }
}

proof fn lemma_parts_around(hay: Seq<char>, needle: Seq<char>, i: int)
    requires
        occurs_at(hay, needle, i),
    ensures
        hay.take(i) + needle + hay.skip(i + needle.len()) == hay,
{
    let all = hay.take(i) + needle + hay.skip(i + needle.len());
    assert forall|k: int| 0 <= k < hay.len() implies all[k] == hay[k] by {
        if i <= k < i + needle.len() {
            assert(hay.subrange(i, i + needle.len())[k - i] == hay[k]);
        }
    }
    assert(all =~= hay);
}

/// What stands behind the last separator is what was put there.
pub proof fn law_after_last(front: Seq<char>, c: char, part: Seq<char>)
    requires
        !part.contains(c),
    ensures
        after_last(front + seq![c] + part, c) == part,
        after_last(part, c) == part,
    decreases part.len(),
{
    let s = front + seq![c] + part;
    if part.len() > 0 {
        let shorter = part.drop_last();
        assert(part[part.len() - 1] != c);
        assert forall|i: int| 0 <= i < shorter.len() implies shorter[i] != c by {
            assert(part[i] != c);
        }
        law_after_last(front, c, shorter);
        assert(s.drop_last() =~= front + seq![c] + shorter);
        assert(shorter.push(part.last()) =~= part);
    } else {
        assert(after_last(s, c) =~= part);
        assert(after_last(part, c) =~= part);
    }
}

proof fn lemma_trim_front(s: Seq<char>) -> (i: int)
    ensures
        0 <= i <= s.len(),
        trim_front(s) == s.skip(i),
        forall|k: int| 0 <= k < i ==> is_white_space(#[trigger] s[k]),
        i < s.len() ==> !is_white_space(s[i]),
    decreases s.len(),
{
    if s.len() > 0 && is_white_space(s.first()) {
        let rest = s.drop_first();
        let j = lemma_trim_front(rest);
        assert(rest.skip(j) =~= s.skip(j + 1));
        assert forall|k: int| 0 <= k < j + 1 implies is_white_space(#[trigger] s[k]) by {
            if k > 0 {
                assert(rest[k - 1] == s[k]);
            }
        }
        if j + 1 < s.len() {
            assert(rest[j] == s[j + 1]);
        }
        j + 1
    } else {
        assert(s.skip(0) =~= s);
        0
    }
}

proof fn lemma_trim_back(s: Seq<char>) -> (j: int)
    ensures
        0 <= j <= s.len(),
        trim_back(s) == s.take(j),
        forall|k: int| j <= k < s.len() ==> is_white_space(#[trigger] s[k]),
        j > 0 ==> !is_white_space(s[j - 1]),
    decreases s.len(),
{
    if s.len() > 0 && is_white_space(s.last()) {
        let rest = s.drop_last();
        let j = lemma_trim_back(rest);
        assert(rest.take(j) =~= s.take(j));
        assert forall|k: int| j <= k < s.len() implies is_white_space(#[trigger] s[k]) by {
            if k < rest.len() {
                assert(rest[k] == s[k]);
            }
        }
        if j > 0 {
            assert(rest[j - 1] == s[j - 1]);
        }
        j
    } else {
        assert(s.take(s.len() as int) =~= s);
        s.len() as int
    }
}

/// Trimming takes white space off both ends, nothing but that, and all of it.
pub proof fn law_trimmed(s: Seq<char>)
    ensures
        exists|i: int, j: int|
            0 <= i <= j <= s.len() && trimmed(s) == #[trigger] s.subrange(i, j) && forall|k: int|
                0 <= k < i || j <= k < s.len() ==> is_white_space(#[trigger] s[k]),
        trimmed(s).len() > 0 ==> !is_white_space(trimmed(s).first()) && !is_white_space(
            trimmed(s).last(),
        ),
{
    let i = lemma_trim_front(s);
    let front = s.skip(i);
    let n = lemma_trim_back(front);
    let j = i + n;
    assert(front.take(n) =~= s.subrange(i, j));
    assert forall|k: int| 0 <= k < i || j <= k < s.len() implies is_white_space(#[trigger] s[k]) by {
        if k >= j {
            assert(front[k - i] == s[k]);
        }
    }
    if n > 0 {
        assert(trimmed(s).first() == s[i]);
        assert(trimmed(s).last() == front[n - 1]);
    }
}

/// A text without white space at its ends is not changed by trimming, and what
/// is trimmed once is trimmed for good.
pub proof fn law_trimmed_once(s: Seq<char>)
    ensures
        s.len() > 0 && !is_white_space(s.first()) && !is_white_space(s.last()) ==> trimmed(s) == s,
        trimmed(trimmed(s)) == trimmed(s),
{
    law_trimmed(s);
    if trimmed(s).len() == 0 {
        assert(trimmed(s) =~= Seq::empty());
    }
}

/// The views of a list of strings are the strings' own, in the same order.
pub proof fn law_texts(parts: Seq<String>, i: int)
    ensures
        texts(parts).len() == parts.len(),
        0 <= i < parts.len() ==> texts(parts)[i] == parts[i]@,
{
}

/// Joining two lists is joining each and putting the separator between, and a
/// single part joins to itself.
pub proof fn law_joined(a: Seq<Seq<char>>, b: Seq<Seq<char>>, part: Seq<char>, sep: Seq<char>)
    requires
        a.len() > 0,
        b.len() > 0,
    ensures
        joined(a + b, sep) == joined(a, sep) + sep + joined(b, sep),
        joined(seq![part], sep) == part,
        joined(Seq::empty(), sep) == Seq::<char>::empty(),
    decreases b.len(),
{
    let whole = a + b;
    let before = b.drop_last();
    assert(whole.drop_last() =~= a + before);
    assert(whole.last() == b.last());
    if b.len() == 1 {
        assert(a + before =~= a);
        assert(joined(b, sep) == b[0]);
    } else {
        law_joined(a, before, part, sep);
        assert(joined(whole, sep) =~= joined(a, sep) + sep + joined(b, sep));
    }
    assert(seq![part][0] == part);
}

/// Replacing a character works on each part of a text alone: the character gives
/// way to its replacement, and any other stays.
pub proof fn law_with_replaced(
    a: Seq<char>,
    b: Seq<char>,
    c: char,
    other: char,
    with: Seq<char>,
)
    requires
        other != c,
    ensures
        with_replaced(a + b, c, with) == with_replaced(a, c, with) + with_replaced(b, c, with),
        with_replaced(seq![c], c, with) == with,
        with_replaced(seq![other], c, with) == seq![other],
        with_replaced(Seq::empty(), c, with) == Seq::<char>::empty(),
    decreases b.len(),
{
    if b.len() == 0 {
        assert(a + b =~= a);
        assert(with_replaced(a + b, c, with) =~= with_replaced(a, c, with) + with_replaced(
            b,
            c,
            with,
        ));
    } else {
        law_with_replaced(a, b.drop_last(), c, other, with);
        assert((a + b).drop_last() =~= a + b.drop_last());
        assert(with_replaced(a + b, c, with) =~= with_replaced(a, c, with) + with_replaced(
            b,
            c,
            with,
        ));
    }
    assert(seq![c].drop_last() =~= Seq::empty());
    assert(seq![other].drop_last() =~= Seq::empty());
    assert(with_replaced(Seq::empty(), c, with) =~= Seq::<char>::empty());
    assert(seq![c].last() == c && seq![other].last() == other);
    assert(with_replaced(seq![c].drop_last(), c, with) == Seq::<char>::empty());
    assert(with_replaced(seq![other].drop_last(), c, with) == Seq::<char>::empty());
    assert(with_replaced(seq![c], c, with) == Seq::<char>::empty() + with);
    assert(with_replaced(seq![c], c, with) =~= with);
    assert(with_replaced(seq![other], c, with) =~= seq![other]);
}

/// The digits are `0` to `9` and, from ten on, `A` to `F`.
pub proof fn law_digit(d: nat)
    requires
        d < 16,
    ensures
        digit(d) == "0123456789ABCDEF"@[d as int],
{
    reveal_strlit("0123456789ABCDEF");
}

/// A row of digits has the value that decimal notation gives it: a digit counts
/// its distance from `0`, and each digit behind a row makes it ten times as much.
pub proof fn law_digits_value(s: Seq<char>, t: Seq<char>, c: char)
    requires
        forall|i: int| 0 <= i < s.len() ==> 48 <= (#[trigger] s[i]) as int <= 57,
        forall|i: int| 0 <= i < t.len() ==> 48 <= (#[trigger] t[i]) as int <= 57,
        48 <= c as int <= 57,
    ensures
        digits_value(s + t) == digits_value(s) * vstd::arithmetic::power::pow(10, t.len())
            + digits_value(t),
        digits_value(seq![c]) == c as int - 48,
        digits_value(Seq::empty()) == 0,
    decreases t.len(),
{
    vstd::arithmetic::power::lemma_pow0(10);
    assert(seq![c].drop_last() =~= Seq::empty());
    assert(digits_value(seq![c].drop_last()) == 0);
    if t.len() == 0 {
        assert(s + t =~= s);
        let v = digits_value(s) as int;
        assert(v * 1 == v) by (nonlinear_arith);
    } else {
        let rest = t.drop_last();
        assert forall|i: int| 0 <= i < rest.len() implies 48 <= (#[trigger] rest[i]) as int
            <= 57 by {
            assert(rest[i] == t[i]);
        }
        law_digits_value(s, rest, c);
        vstd::arithmetic::power::lemma_pow1(10);
        vstd::arithmetic::power::lemma_pow_adds(10, rest.len(), 1);
        let all = s + t;
        assert(all.drop_last() =~= s + rest);
        assert(all.last() == t[t.len() - 1]);
        let p = vstd::arithmetic::power::pow(10, rest.len());
        let v = digits_value(s) as int;
        assert((v * p) * 10 == v * (p * 10)) by (nonlinear_arith);
    }
}

/// A number in decimal reads back as that number, has no plus sign and no zero in
/// front.
pub proof fn law_decimal_reads_back(n: nat)
    ensures
        digits_value(decimal(n)) == n,
        n <= u64::MAX ==> parsed_u64(decimal(n)) == Some(n as u64),
        decimal(n).len() > 0,
        decimal(n).len() > 1 ==> decimal(n)[0] != '0',
        forall|i: int| 0 <= i < decimal(n).len() ==> 48 <= (#[trigger] decimal(n)[i]) as int <= 57,
    decreases n,
{
    lemma_decimal_digits(n);
    assert(is_digit(decimal(n)[0]));
    if n < 10 {
        assert(decimal(n).drop_last() =~= Seq::empty());
        assert(digits_value(decimal(n).drop_last()) == 0);
    } else {
        law_decimal_reads_back(n / 10);
        assert(decimal(n).drop_last() =~= decimal(n / 10));
        assert(decimal(n)[0] == decimal(n / 10)[0]);
        if n < 100 {
            assert(decimal(n / 10)[0] == digit(n / 10));
        } else {
            lemma_decimal_digits(n / 10 / 10);
            assert(decimal(n / 10) == decimal(n / 10 / 10).push(digit(n / 10 % 10)));
        }
    }
}

/// A number with a sign reads back: the minus sign is there exactly where the
/// number is negative, and the digits are those of its magnitude.
pub proof fn law_signed_decimal_reads_back(i: int)
    ensures
        i < 0 ==> signed_decimal(i)[0] == '-' && signed_decimal(i).skip(1) == decimal((-i) as nat),
        i >= 0 ==> signed_decimal(i) == decimal(i as nat) && signed_decimal(i)[0] != '-',
{
    if i < 0 {
        assert(signed_decimal(i).skip(1) =~= decimal((-i) as nat));
    } else {
        lemma_decimal_digits(i as nat);
        assert(is_digit(decimal(i as nat)[0]));
    }
}

/// A text is read as a number exactly where it is a row of digits, with or
/// without a plus sign in front, whose value fits.
pub proof fn law_parsed_number(s: Seq<char>, n: u64)
    ensures
        parsed_u64(s) == Some(n) <==> (is_digits(s) && digits_value(s) == n) || (s.len() > 1
            && s[0] == '+' && is_digits(s.skip(1)) && digits_value(s.skip(1)) == n),
        is_digits(s) <==> s.len() > 0 && forall|i: int|
            0 <= i < s.len() ==> 48 <= (#[trigger] s[i]) as int <= 57,
{
    if s.len() > 0 && s[0] == '+' {
        assert(s.drop_first() =~= s.skip(1));
        assert(!is_digit(s[0]));
    }
    if is_digits(s) {
        assert forall|i: int| 0 <= i < s.len() implies 48 <= (#[trigger] s[i]) as int <= 57 by {
            assert(is_digit(s[i]));
        }
    }
}

/// The value of a hexadecimal digit.
pub open spec fn hex_digit_value(c: char) -> int {
    if c as int >= 65 {
        c as int - 55
    } else {
        c as int - 48
    }
}

/// The number that a row of hexadecimal digits stands for.
pub open spec fn hex_value(s: Seq<char>) -> int
    decreases s.len(),
{
    if s.len() == 0 {
        0
    } else {
        16 * hex_value(s.drop_last()) + hex_digit_value(s.last())
    }
}

/// A number in hexadecimal reads back as that number. It has four digits, or more
/// where four are not enough, and then no zero in front.
pub proof fn law_hex_reads_back(n: nat)
    ensures
        hex_value(hex4(n)) == n,
        hex4(n).len() >= 4,
        hex4(n).len() > 4 ==> hex4(n)[0] != '0',
        forall|i: int|
            0 <= i < hex4(n).len() ==> "0123456789ABCDEF"@.contains(#[trigger] hex4(n)[i]),
    decreases n,
{
    reveal_strlit("0123456789ABCDEF");
    let all = "0123456789ABCDEF"@;
    if n < 0x10000 {
        let a = n / 0x1000;
        let b = n / 0x100 % 16;
        let c = n / 0x10 % 16;
        let d = n % 16;
        assert(a < 16 && n == 4096 * a + 256 * b + 16 * c + d);
        let s = hex4(n);
        assert(all[a as int] == digit(a) && all[b as int] == digit(b));
        assert(all[c as int] == digit(c) && all[d as int] == digit(d));
        let s3 = s.drop_last();
        let s2 = s3.drop_last();
        let s1 = s2.drop_last();
        assert(s1.drop_last() =~= Seq::empty());
        assert(hex_value(s1.drop_last()) == 0);
        assert(hex_value(s1) == a);
        assert(hex_value(s2) == 16 * a + b);
        assert(hex_value(s3) == 256 * a + 16 * b + c);
    } else {
        law_hex_reads_back(n / 16);
        let before = hex4(n / 16);
        assert(hex4(n).drop_last() =~= before);
        assert(all[(n % 16) as int] == digit(n % 16));
        assert(hex4(n)[0] == before[0]);
        assert forall|i: int| 0 <= i < hex4(n).len() implies all.contains(
            #[trigger] hex4(n)[i],
        ) by {
            if i < before.len() {
                assert(before[i] == hex4(n)[i]);
            }
        }
        if n / 16 < 0x10000 {
            assert(before[0] == digit(n / 16 / 0x1000));
        } else {
            assert(before.len() > 4) by {
                assert(before == hex4(n / 16 / 16).push(digit(n / 16 % 16)));
                law_hex_reads_back(n / 16 / 16);
            }
        }
    }
}

/// The dictionary order: a beginning comes before what goes on from it, the first
/// difference decides, and a common beginning does not count.
pub proof fn law_text_less(common: Seq<char>, a: Seq<char>, b: Seq<char>)
    ensures
        text_less(common + a, common + b) <==> text_less(a, b),
        a.len() == 0 && b.len() > 0 ==> text_less(a, b),
        b.len() == 0 ==> !text_less(a, b),
        a.len() > 0 && b.len() > 0 && a[0] != b[0] ==> (text_less(a, b) <==> (a[0] as int) < (
        b[0] as int)),
    decreases common.len(),
{
    if common.len() > 0 {
        let rest = common.drop_first();
        law_text_less(rest, a, b);
        assert((common + a).drop_first() =~= rest + a);
        assert((common + b).drop_first() =~= rest + b);
    } else {
        assert(common + a =~= a);
        assert(common + b =~= b);
    }
}

} // verus!
