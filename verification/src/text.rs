//! Character-level string helpers with specifications that follow the
//! behaviour of the corresponding `str` methods.

use vstd::prelude::*;
use vstd::std_specs::iter::IteratorSpec;

verus! {

broadcast use vstd::string::group_string_axioms;

/// The characters of `s`, in order.
pub fn chars_of(s: &str) -> (v: Vec<char>)
    ensures
        v@ == s@,
{
    let mut v: Vec<char> = Vec::new();
    let mut it = s.chars();
    loop
        invariant
            v@ + it.remaining() == s@,
            it.obeys_prophetic_iter_laws(),
            it.decrease() is Some,
        ensures
            v@ == s@,
        decreases it.decrease()->0,
    {
        match it.next() {
            Some(c) => {
                v.push(c);
            },
            None => {
                break;
            },
        }
    }
    v
}


/// Appends one character to a string (`String::push`).
#[verifier::external_body]
pub(crate) fn push_char(s: &mut String, c: char)
    ensures
        final(s)@ == old(s)@.push(c),
{
    s.push(c);
}

/// A string holding exactly the characters of `v`.
pub fn string_from_chars(v: &[char]) -> (s: String)
    ensures
        s@ == v@,
{
    let mut s = String::new();
    let mut i: usize = 0;
    while i < v.len()
        invariant
            i <= v.len(),
            s@ == v@.take(i as int),
        decreases v.len() - i,
    {
        push_char(&mut s, v[i]);
        assert(v@.take(i as int).push(v@[i as int]) =~= v@.take(i + 1));
        i = i + 1;
    }
    assert(v@.take(v.len() as int) =~= v@);
    s
}

/// Appends the characters of `t` to `s`.
pub fn push_chars(s: &mut String, t: &[char])
    ensures
        final(s)@ == old(s)@ + t@,
{
    let mut i: usize = 0;
    while i < t.len()
        invariant
            i <= t.len(),
            s@ == old(s)@ + t@.take(i as int),
        decreases t.len() - i,
    {
        push_char(s, t[i]);
        assert(old(s)@ + t@.take(i as int) + seq![t@[i as int]] =~= old(s)@ + t@.take(i + 1));
        i = i + 1;
    }
    assert(t@.take(t.len() as int) =~= t@);
}

/// Appends a string slice to `s` (`String::push_str`).
pub fn push_str(s: &mut String, t: &str)
    ensures
        final(s)@ == old(s)@ + t@,
{
    let v = chars_of(t);
    push_chars(s, v.as_slice());
}

/// Unicode `White_Space`, as tested by `char::is_whitespace`.
pub open spec fn is_ws(c: char) -> bool {
    let u = c as u32;
    ||| 0x09 <= u <= 0x0D
    ||| u == 0x20
    ||| u == 0x85
    ||| u == 0xA0
    ||| u == 0x1680
    ||| 0x2000 <= u <= 0x200A
    ||| u == 0x2028
    ||| u == 0x2029
    ||| u == 0x202F
    ||| u == 0x205F
    ||| u == 0x3000
}

pub fn is_whitespace(c: char) -> (b: bool)
    ensures
        b == is_ws(c),
{
    let u = c as u32;
    (0x09 <= u && u <= 0x0D) || u == 0x20 || u == 0x85 || u == 0xA0 || u == 0x1680 || (0x2000
        <= u && u <= 0x200A) || u == 0x2028 || u == 0x2029 || u == 0x202F || u == 0x205F || u
        == 0x3000
}

pub open spec fn is_ascii_digit_spec(c: char) -> bool {
    '0' as u32 <= c as u32 <= '9' as u32
}

pub open spec fn is_ascii_upper_spec(c: char) -> bool {
    'A' as u32 <= c as u32 <= 'Z' as u32
}

pub open spec fn is_ascii_lower_spec(c: char) -> bool {
    'a' as u32 <= c as u32 <= 'z' as u32
}

pub open spec fn is_ascii_alnum_spec(c: char) -> bool {
    is_ascii_digit_spec(c) || is_ascii_upper_spec(c) || is_ascii_lower_spec(c)
}

pub fn is_ascii_digit(c: char) -> (b: bool)
    ensures
        b == is_ascii_digit_spec(c),
{
    let u = c as u32;
    48 <= u && u <= 57
}

pub fn is_ascii_alphanumeric(c: char) -> (b: bool)
    ensures
        b == is_ascii_alnum_spec(c),
{
    let u = c as u32;
    (48 <= u && u <= 57) || (65 <= u && u <= 90) || (97 <= u && u <= 122)
}

/// `char::to_ascii_lowercase`.
pub open spec fn lower_char(c: char) -> char {
    if is_ascii_upper_spec(c) {
        ((c as u32) + 32) as char
    } else {
        c
    }
}

pub fn to_ascii_lowercase(c: char) -> (r: char)
    ensures
        r == lower_char(c),
{
    let u = c as u32;
    if 65 <= u && u <= 90 {
        let l: u8 = (u + 32) as u8;
        l as char
    } else {
        c
    }
}

/// `str::to_ascii_lowercase`.
pub open spec fn lower(s: Seq<char>) -> Seq<char> {
    s.map_values(|c: char| lower_char(c))
}

pub fn lower_chars(v: &[char]) -> (r: Vec<char>)
    ensures
        r@ == lower(v@),
{
    let mut r: Vec<char> = Vec::new();
    let mut i: usize = 0;
    while i < v.len()
        invariant
            i <= v.len(),
            r@ == lower(v@.take(i as int)),
        decreases v.len() - i,
    {
        r.push(to_ascii_lowercase(v[i]));
        assert(lower(v@.take(i + 1)) =~= lower(v@.take(i as int)).push(lower_char(v@[i as int])));
        i = i + 1;
    }
    assert(v@.take(v.len() as int) =~= v@);
    r
}

/// `str::trim_start`.
pub open spec fn trim_start(s: Seq<char>) -> Seq<char>
    decreases s.len(),
{
    if s.len() > 0 && is_ws(s[0]) {
        trim_start(s.drop_first())
    } else {
        s
    }
}

/// `str::trim_end`.
pub open spec fn trim_end(s: Seq<char>) -> Seq<char>
    decreases s.len(),
{
    if s.len() > 0 && is_ws(s.last()) {
        trim_end(s.drop_last())
    } else {
        s
    }
}

/// `str::trim`.
pub open spec fn trim(s: Seq<char>) -> Seq<char> {
    trim_end(trim_start(s))
}

/// The characters of `v` from `lo` up to (not including) `hi`.
pub fn slice_of(v: &[char], lo: usize, hi: usize) -> (r: Vec<char>)
    requires
        lo <= hi <= v.len(),
    ensures
        r@ == v@.subrange(lo as int, hi as int),
{
    let mut r: Vec<char> = Vec::new();
    let mut i: usize = lo;
    while i < hi
        invariant
            lo <= i <= hi <= v.len(),
            r@ == v@.subrange(lo as int, i as int),
        decreases hi - i,
    {
        r.push(v[i]);
        assert(v@.subrange(lo as int, i + 1) =~= v@.subrange(lo as int, i as int).push(v@[i as int]));
        i = i + 1;
    }
    r
}

/// Index of the first character of `v` at or after `lo` that is not whitespace.
pub fn trim_start_index(v: &[char]) -> (i: usize)
    ensures
        i <= v.len(),
        trim_start(v@) == v@.skip(i as int),
        i < v.len() ==> !is_ws(v@[i as int]),
        forall|k: int| 0 <= k < i ==> is_ws(#[trigger] v@[k]),
{
    let mut i: usize = 0;
    assert(v@.skip(0) =~= v@);
    while i < v.len() && is_whitespace(v[i])
        invariant
            i <= v.len(),
            trim_start(v@) == trim_start(v@.skip(i as int)),
            forall|k: int| 0 <= k < i ==> is_ws(#[trigger] v@[k]),
        decreases v.len() - i,
    {
        assert(v@.skip(i as int).drop_first() =~= v@.skip(i + 1));
        i = i + 1;
    }
    i
}

/// One past the index of the last character of `v` that is not whitespace.
pub fn trim_end_index(v: &[char]) -> (j: usize)
    ensures
        j <= v.len(),
        trim_end(v@) == v@.take(j as int),
{
    let mut j: usize = v.len();
    assert(v@.take(v.len() as int) =~= v@);
    while j > 0 && is_whitespace(v[j - 1])
        invariant
            j <= v.len(),
            trim_end(v@) == trim_end(v@.take(j as int)),
        decreases j,
    {
        assert(v@.take(j as int).drop_last() =~= v@.take(j - 1));
        j = j - 1;
    }
    assert(v@.take(v.len() as int) =~= v@);
    j
}

/// `str::trim`.
pub fn trim_chars(v: &[char]) -> (r: Vec<char>)
    ensures
        r@ == trim(v@),
{
    let i = trim_start_index(v);
    let t = slice_of(v, i, v.len());
    assert(t@ =~= v@.skip(i as int));
    let j = trim_end_index(t.as_slice());
    slice_of(t.as_slice(), 0, j)
}


/// `s` begins with `p` (`str::starts_with`).
pub open spec fn starts_with(s: Seq<char>, p: Seq<char>) -> bool {
    p.len() <= s.len() && s.take(p.len() as int) == p
}

/// `s` ends with `p` (`str::ends_with`).
pub open spec fn ends_with(s: Seq<char>, p: Seq<char>) -> bool {
    p.len() <= s.len() && s.skip(s.len() - p.len()) == p
}

/// `p` occurs in `s` starting at index `i`.
pub open spec fn occurs_at(s: Seq<char>, p: Seq<char>, i: int) -> bool {
    0 <= i && i + p.len() <= s.len() && s.subrange(i, i + p.len()) == p
}

/// `s` contains `p` (`str::contains`).
pub open spec fn contains(s: Seq<char>, p: Seq<char>) -> bool {
    exists|i: int| occurs_at(s, p, i)
}

/// Text that stands between a part ending in `open` and a part starting with
/// `close` occurs there enclosed by both.
pub proof fn lemma_occurs_enclosed(a: Seq<char>, x: Seq<char>, b: Seq<char>, open: Seq<char>, close: Seq<char>)
    requires
        ends_with(a, open),
        starts_with(b, close),
    ensures
        occurs_at(a + x + b, open + x + close, a.len() - open.len()),
{
    let s = a + x + b;
    let i = a.len() - open.len();
    assert(s.subrange(i, i + (open + x + close).len()) =~= open + x + close) by {
        assert(a.skip(i) == open);
        assert(b.take(close.len() as int) == close);
    }
}

/// What occurs in a text occurs, shifted, in any text around it.
pub proof fn lemma_occurs_within(pre: Seq<char>, s: Seq<char>, post: Seq<char>, p: Seq<char>, i: int)
    requires
        occurs_at(s, p, i),
    ensures
        occurs_at(pre + s + post, p, pre.len() + i),
        contains(pre + s + post, p),
{
    let t = pre + s + post;
    assert(t.subrange(pre.len() + i, pre.len() + i + p.len()) =~= s.subrange(i, i + p.len()));
}

/// A text contains each of its parts.
pub proof fn lemma_contains_part(pre: Seq<char>, mid: Seq<char>, post: Seq<char>)
    ensures
        contains(pre + mid + post, mid),
{
    assert(mid.subrange(0, mid.len() as int) =~= mid);
    lemma_occurs_within(pre, mid, post, mid, 0);
}

/// What occurs in a part of a text occurs in the text.
pub proof fn lemma_contains_trans(s: Seq<char>, p: Seq<char>, q: Seq<char>)
    requires
        contains(s, p),
        contains(p, q),
    ensures
        contains(s, q),
{
    let i = choose|i: int| occurs_at(s, p, i);
    let j = choose|j: int| occurs_at(p, q, j);
    assert(s.subrange(i + j, i + j + q.len()) =~= p.subrange(j, j + q.len()));
    assert(occurs_at(s, q, i + j));
}

/// The first index at or after `i` at which `p` occurs in `s` (`str::find` from `i`).
pub open spec fn find_from(s: Seq<char>, p: Seq<char>, i: int) -> Option<int>
    decreases s.len() - i,
{
    if i < 0 || i + p.len() > s.len() {
        None
    } else if p.len() == 0 || s.subrange(i, i + p.len()) == p {
        Some(i)
    } else {
        find_from(s, p, i + 1)
    }
}

/// The first index at which `p` occurs in `s` (`str::find`).
pub open spec fn find(s: Seq<char>, p: Seq<char>) -> Option<int> {
    find_from(s, p, 0)
}

pub proof fn lemma_find_from(s: Seq<char>, p: Seq<char>, i: int)
    requires
        0 <= i,
    ensures
        find_from(s, p, i) matches Some(k) ==> i <= k && occurs_at(s, p, k) && forall|m: int|
            i <= m < k ==> !occurs_at(s, p, m),
        find_from(s, p, i) is None ==> forall|m: int| i <= m ==> !occurs_at(s, p, m),
    decreases s.len() - i,
{
    if i + p.len() > s.len() {
    } else if p.len() == 0 || s.subrange(i, i + p.len()) == p {
        if p.len() == 0 {
            assert(s.subrange(i, i) =~= p);
        }
    } else {
        lemma_find_from(s, p, i + 1);
    }
}

pub proof fn lemma_find(s: Seq<char>, p: Seq<char>)
    ensures
        find(s, p) matches Some(k) ==> occurs_at(s, p, k) && forall|m: int|
            0 <= m < k ==> !occurs_at(s, p, m),
        find(s, p) is None <==> !contains(s, p),
{
    lemma_find_from(s, p, 0);
}

/// Whether `p` occurs in `v` at index `i`.
pub fn matches_at(v: &[char], p: &[char], i: usize) -> (b: bool)
    requires
        i <= v.len(),
    ensures
        b == occurs_at(v@, p@, i as int),
{
    if p.len() > v.len() - i {
        return false;
    }
    let mut k: usize = 0;
    while k < p.len()
        invariant
            k <= p.len(),
            i + p.len() <= v.len(),
            forall|m: int| 0 <= m < k ==> v@[i + m] == p@[m],
        decreases p.len() - k,
    {
        if v[i + k] != p[k] {
            assert(v@.subrange(i as int, i + p.len())[k as int] != p@[k as int]);
            return false;
        }
        k = k + 1;
    }
    assert(v@.subrange(i as int, i + p.len()) =~= p@);
    true
}

/// The first index at or after `start` at which `p` occurs in `v`.
pub fn find_chars_from(v: &[char], p: &[char], start: usize) -> (r: Option<usize>)
    requires
        start <= v.len(),
    ensures
        r matches Some(k) ==> find_from(v@, p@, start as int) == Some(k as int),
        r is None ==> find_from(v@, p@, start as int) is None,
{
    let mut i: usize = start;
    while i <= v.len()
        invariant
            start <= i,
            i <= v.len() + 1,
            find_from(v@, p@, start as int) == find_from(v@, p@, i as int),
        decreases v.len() + 1 - i,
    {
        let m = matches_at(v, p, i);
        proof {
            if p@.len() == 0 {
                assert(v@.subrange(i as int, i as int) =~= p@);
            }
        }
        if m {
            return Some(i);
        }
        if p.len() > v.len() - i || i == v.len() {
            return None;
        }
        i = i + 1;
    }
    None
}

/// The first index at which `p` occurs in `v` (`str::find`).
pub fn find_chars(v: &[char], p: &[char]) -> (r: Option<usize>)
    ensures
        r matches Some(k) ==> find(v@, p@) == Some(k as int),
        r is None ==> find(v@, p@) is None,
{
    find_chars_from(v, p, 0)
}

/// Whether `v` contains `p` (`str::contains`).
pub fn contains_chars(v: &[char], p: &[char]) -> (b: bool)
    ensures
        b == contains(v@, p@),
{
    proof {
        lemma_find(v@, p@);
    }
    find_chars(v, p).is_some()
}

/// Whether `v` begins with `p` (`str::starts_with`).
pub fn starts_with_chars(v: &[char], p: &[char]) -> (b: bool)
    ensures
        b == starts_with(v@, p@),
{
    let b = matches_at(v, p, 0);
    assert(b ==> v@.take(p@.len() as int) =~= v@.subrange(0, p@.len() as int));
    assert(starts_with(v@, p@) ==> v@.take(p@.len() as int) =~= v@.subrange(0, p@.len() as int));
    b
}

/// Whether `v` ends with `p` (`str::ends_with`).
pub fn ends_with_chars(v: &[char], p: &[char]) -> (b: bool)
    ensures
        b == ends_with(v@, p@),
{
    if p.len() > v.len() {
        return false;
    }
    let b = matches_at(v, p, v.len() - p.len());
    assert(v@.skip(v@.len() - p@.len()) =~= v@.subrange(v@.len() - p@.len(), v@.len() as int));
    b
}

/// Whether `v` contains the character `c`.
pub fn has_char(v: &[char], c: char) -> (b: bool)
    ensures
        b == v@.contains(c),
{
    let mut i: usize = 0;
    while i < v.len()
        invariant
            i <= v.len(),
            forall|k: int| 0 <= k < i ==> v@[k] != c,
        decreases v.len() - i,
    {
        if v[i] == c {
            return true;
        }
        i = i + 1;
    }
    false
}

/// Every occurrence of `a` replaced by `b` (`str::replace` with single characters).
pub open spec fn replace_char(s: Seq<char>, a: char, b: char) -> Seq<char> {
    s.map_values(|c: char| if c == a { b } else { c })
}

pub fn replace_char_chars(v: &[char], a: char, b: char) -> (r: Vec<char>)
    ensures
        r@ == replace_char(v@, a, b),
{
    let mut r: Vec<char> = Vec::new();
    let mut i: usize = 0;
    while i < v.len()
        invariant
            i <= v.len(),
            r@ == replace_char(v@.take(i as int), a, b),
        decreases v.len() - i,
    {
        let c = v[i];
        r.push(if c == a { b } else { c });
        assert(replace_char(v@.take(i + 1), a, b) =~= replace_char(v@.take(i as int), a, b).push(
            if c == a { b } else { c },
        ));
        i = i + 1;
    }
    assert(v@.take(v.len() as int) =~= v@);
    r
}

/// `s` with leading characters that belong to `set` removed.
pub open spec fn trim_start_set(s: Seq<char>, set: Seq<char>) -> Seq<char>
    decreases s.len(),
{
    if s.len() > 0 && set.contains(s[0]) {
        trim_start_set(s.drop_first(), set)
    } else {
        s
    }
}

/// `s` with trailing characters that belong to `set` removed.
pub open spec fn trim_end_set(s: Seq<char>, set: Seq<char>) -> Seq<char>
    decreases s.len(),
{
    if s.len() > 0 && set.contains(s.last()) {
        trim_end_set(s.drop_last(), set)
    } else {
        s
    }
}

/// `str::trim_matches` with a set of characters.
pub open spec fn trim_set(s: Seq<char>, set: Seq<char>) -> Seq<char> {
    trim_end_set(trim_start_set(s, set), set)
}

pub fn trim_start_set_chars(v: &[char], set: &[char]) -> (r: Vec<char>)
    ensures
        r@ == trim_start_set(v@, set@),
{
    let mut i: usize = 0;
    assert(v@.skip(0) =~= v@);
    while i < v.len() && has_char(set, v[i])
        invariant
            i <= v.len(),
            trim_start_set(v@, set@) == trim_start_set(v@.skip(i as int), set@),
        decreases v.len() - i,
    {
        assert(v@.skip(i as int).drop_first() =~= v@.skip(i + 1));
        i = i + 1;
    }
    let r = slice_of(v, i, v.len());
    assert(r@ =~= v@.skip(i as int));
    r
}

pub fn trim_end_set_chars(v: &[char], set: &[char]) -> (r: Vec<char>)
    ensures
        r@ == trim_end_set(v@, set@),
{
    let mut j: usize = v.len();
    assert(v@.take(v.len() as int) =~= v@);
    while j > 0 && has_char(set, v[j - 1])
        invariant
            j <= v.len(),
            trim_end_set(v@, set@) == trim_end_set(v@.take(j as int), set@),
        decreases j,
    {
        assert(v@.take(j as int).drop_last() =~= v@.take(j - 1));
        j = j - 1;
    }
    let r = slice_of(v, 0, j);
    assert(r@ =~= v@.take(j as int));
    r
}

pub fn trim_set_chars(v: &[char], set: &[char]) -> (r: Vec<char>)
    ensures
        r@ == trim_set(v@, set@),
{
    let t = trim_start_set_chars(v, set);
    trim_end_set_chars(t.as_slice(), set)
}

/// `s` with every leading copy of `p` removed (`str::trim_start_matches` with a string).
pub open spec fn strip_prefixes(s: Seq<char>, p: Seq<char>) -> Seq<char>
    decreases s.len(),
{
    if p.len() > 0 && starts_with(s, p) {
        strip_prefixes(s.skip(p.len() as int), p)
    } else {
        s
    }
}

pub fn strip_prefixes_chars(v: &[char], p: &[char]) -> (r: Vec<char>)
    ensures
        r@ == strip_prefixes(v@, p@),
{
    let mut cur = slice_of(v, 0, v.len());
    assert(cur@ =~= v@);
    while p.len() > 0 && starts_with_chars(cur.as_slice(), p)
        invariant
            strip_prefixes(v@, p@) == strip_prefixes(cur@, p@),
        decreases cur.len(),
    {
        let next = slice_of(cur.as_slice(), p.len(), cur.len());
        assert(next@ =~= cur@.skip(p@.len() as int));
        cur = next;
    }
    cur
}

/// Joins `parts` with `sep` between consecutive parts (`[T]::join`).
pub open spec fn join(parts: Seq<Seq<char>>, sep: Seq<char>) -> Seq<char>
    decreases parts.len(),
{
    if parts.len() == 0 {
        Seq::empty()
    } else if parts.len() == 1 {
        parts[0]
    } else {
        join(parts.drop_last(), sep) + sep + parts.last()
    }
}

pub fn join_chars(parts: &Vec<Vec<char>>, sep: &[char]) -> (r: Vec<char>)
    ensures
        r@ == join(parts@.map_values(|p: Vec<char>| p@), sep@),
{
    let ghost views = parts@.map_values(|p: Vec<char>| p@);
    let mut r: Vec<char> = Vec::new();
    let mut i: usize = 0;
    while i < parts.len()
        invariant
            i <= parts.len(),
            views == parts@.map_values(|p: Vec<char>| p@),
            r@ == join(views.take(i as int), sep@),
        decreases parts.len() - i,
    {
        if i > 0 {
            r.extend_from_slice(sep);
        }
        r.extend_from_slice(parts[i].as_slice());
        assert(views.take(i + 1).drop_last() =~= views.take(i as int));
        assert(views.take(i + 1).last() == parts@[i as int]@);
        if i == 0 {
            assert(views.take(1)[0] == views[0]);
        }
        i = i + 1;
    }
    assert(views.take(parts.len() as int) =~= views);
    r
}


pub proof fn lemma_trim_start(s: Seq<char>)
    ensures
        trim_start(s).len() <= s.len(),
        trim_start(s) == s.skip(s.len() - trim_start(s).len()),
        trim_start(s).len() > 0 ==> !is_ws(trim_start(s)[0]),
    decreases s.len(),
{
    if s.len() > 0 && is_ws(s[0]) {
        lemma_trim_start(s.drop_first());
        let t = trim_start(s.drop_first());
        assert(s.drop_first().skip(s.drop_first().len() - t.len()) =~= s.skip(s.len() - t.len()));
    } else {
        assert(s.skip(0) =~= s);
    }
}

/// Index of the first whitespace character of `s` at or after `i`, or the length of `s`.
pub open spec fn word_end(s: Seq<char>, i: int) -> int
    decreases s.len() - i,
{
    if i < 0 || i >= s.len() {
        s.len() as int
    } else if is_ws(s[i]) {
        i
    } else {
        word_end(s, i + 1)
    }
}

pub proof fn lemma_word_end(s: Seq<char>, i: int)
    requires
        0 <= i <= s.len(),
    ensures
        i <= word_end(s, i) <= s.len(),
        forall|k: int| i <= k < word_end(s, i) ==> !is_ws(#[trigger] s[k]),
        word_end(s, i) < s.len() ==> is_ws(s[word_end(s, i)]),
    decreases s.len() - i,
{
    if i < s.len() && !is_ws(s[i]) {
        lemma_word_end(s, i + 1);
    }
}

/// The whitespace-separated words of `s` (`str::split_whitespace`).
pub open spec fn words(s: Seq<char>) -> Seq<Seq<char>>
    decreases s.len(),
{
    let t = trim_start(s);
    if t.len() == 0 {
        Seq::empty()
    } else {
        let e = word_end(t, 0);
        proof {
            lemma_trim_start(s);
            lemma_word_end(t, 0);
        }
        seq![t.take(e)] + words(t.skip(e))
    }
}

/// Index of the first whitespace character of `v`, or its length.
pub fn word_end_index(v: &[char]) -> (e: usize)
    ensures
        e as int == word_end(v@, 0),
{
    let mut e: usize = 0;
    while e < v.len() && !is_whitespace(v[e])
        invariant
            e <= v.len(),
            word_end(v@, 0) == word_end(v@, e as int),
        decreases v.len() - e,
    {
        e = e + 1;
    }
    e
}

/// The whitespace-separated words of `v` (`str::split_whitespace`).
pub fn words_of(v: &[char]) -> (r: Vec<Vec<char>>)
    ensures
        r@.map_values(|w: Vec<char>| w@) == words(v@),
{
    let mut out: Vec<Vec<char>> = Vec::new();
    let mut rest = slice_of(v, 0, v.len());
    assert(rest@ =~= v@);
    assert(out@.map_values(|w: Vec<char>| w@) =~= Seq::<Seq<char>>::empty());
    loop
        invariant
            words(v@) == out@.map_values(|w: Vec<char>| w@) + words(rest@),
        ensures
            words(v@) == out@.map_values(|w: Vec<char>| w@),
        decreases rest.len(),
    {
        let k = trim_start_index(rest.as_slice());
        if k == rest.len() {
            assert(trim_start(rest@).len() == 0);
            assert(words(rest@) =~= Seq::<Seq<char>>::empty());
            assert(out@.map_values(|w: Vec<char>| w@) + words(rest@) =~= out@.map_values(
                |w: Vec<char>| w@,
            ));
            break ;
        }
        let t = slice_of(rest.as_slice(), k, rest.len());
        assert(t@ =~= rest@.skip(k as int));
        let e = word_end_index(t.as_slice());
        proof {
            lemma_word_end(t@, 0);
        }
        let w = slice_of(t.as_slice(), 0, e);
        let nrest = slice_of(t.as_slice(), e, t.len());
        assert(w@ =~= t@.take(e as int));
        assert(nrest@ =~= t@.skip(e as int));
        let ghost old_out = out@;
        out.push(w);
        assert(out@.map_values(|w: Vec<char>| w@) =~= old_out.map_values(|w: Vec<char>| w@).push(
            t@.take(e as int),
        ));
        assert(words(rest@) == seq![t@.take(e as int)] + words(nrest@));
        assert(old_out.map_values(|w: Vec<char>| w@) + (seq![t@.take(e as int)] + words(nrest@))
            =~= out@.map_values(|w: Vec<char>| w@) + words(nrest@));
        rest = nrest;
    }
    out
}

/// Index of the first occurrence of `c` in `s` at or after `i`.
pub open spec fn char_index_from(s: Seq<char>, c: char, i: int) -> Option<int>
    decreases s.len() - i,
{
    if i < 0 || i >= s.len() {
        None
    } else if s[i] == c {
        Some(i)
    } else {
        char_index_from(s, c, i + 1)
    }
}

pub proof fn lemma_char_index_from(s: Seq<char>, c: char, i: int)
    requires
        0 <= i,
    ensures
        char_index_from(s, c, i) matches Some(k) ==> i <= k < s.len() && s[k] == c && forall|
            m: int,
        |
            i <= m < k ==> s[m] != c,
        char_index_from(s, c, i) is None ==> forall|m: int| i <= m < s.len() ==> s[m] != c,
    decreases s.len() - i,
{
    if i < s.len() && s[i] != c {
        lemma_char_index_from(s, c, i + 1);
    }
}

/// Index of the first occurrence of `c` in `v`.
pub fn char_index(v: &[char], c: char) -> (r: Option<usize>)
    ensures
        r matches Some(k) ==> char_index_from(v@, c, 0) == Some(k as int) && k < v.len() && v@[k as int]
            == c,
        r is None ==> char_index_from(v@, c, 0) is None,
{
    proof {
        lemma_char_index_from(v@, c, 0);
    }
    let mut i: usize = 0;
    while i < v.len()
        invariant
            i <= v.len(),
            char_index_from(v@, c, 0) == char_index_from(v@, c, i as int),
        decreases v.len() - i,
    {
        if v[i] == c {
            return Some(i);
        }
        i = i + 1;
    }
    None
}

/// `l` without one trailing carriage return.
pub open spec fn strip_cr(l: Seq<char>) -> Seq<char> {
    if l.len() > 0 && l.last() == '\r' {
        l.drop_last()
    } else {
        l
    }
}

/// The lines of `s` (`str::lines`).
pub open spec fn lines(s: Seq<char>) -> Seq<Seq<char>>
    decreases s.len(),
{
    if s.len() == 0 {
        Seq::empty()
    } else {
        match char_index_from(s, '\n', 0) {
            Some(i) => {
                proof {
                    lemma_char_index_from(s, '\n', 0);
                }
                seq![strip_cr(s.take(i))] + lines(s.skip(i + 1))
            },
            None => seq![s],
        }
    }
}

pub fn strip_cr_chars(v: Vec<char>) -> (r: Vec<char>)
    ensures
        r@ == strip_cr(v@),
{
    let mut v = v;
    if v.len() > 0 && v[v.len() - 1] == '\r' {
        v.pop();
    }
    v
}

/// The lines of `v` (`str::lines`).
pub fn lines_of(v: &[char]) -> (r: Vec<Vec<char>>)
    ensures
        r@.map_values(|w: Vec<char>| w@) == lines(v@),
{
    let mut out: Vec<Vec<char>> = Vec::new();
    let mut rest = slice_of(v, 0, v.len());
    assert(rest@ =~= v@);
    assert(out@.map_values(|w: Vec<char>| w@) =~= Seq::<Seq<char>>::empty());
    loop
        invariant_except_break
            lines(v@) == out@.map_values(|w: Vec<char>| w@) + lines(rest@),
        ensures
            lines(v@) == out@.map_values(|w: Vec<char>| w@),
        decreases rest.len(),
    {
        if rest.len() == 0 {
            assert(out@.map_values(|w: Vec<char>| w@) + lines(rest@) =~= out@.map_values(
                |w: Vec<char>| w@,
            ));
            break ;
        }
        let ghost old_out = out@;
        match char_index(rest.as_slice(), '\n') {
            Some(i) => {
                proof {
                    lemma_char_index_from(rest@, '\n', 0);
                }
                let tk = slice_of(rest.as_slice(), 0, i);
                assert(tk@ =~= rest@.take(i as int));
                let l = strip_cr_chars(tk);
                let nrest = slice_of(rest.as_slice(), i + 1, rest.len());
                assert(nrest@ =~= rest@.skip(i + 1));
                let ghost lv = l@;
                out.push(l);
                assert(out@.map_values(|w: Vec<char>| w@) =~= old_out.map_values(|w: Vec<char>| w@).push(lv));
                assert(old_out.map_values(|w: Vec<char>| w@) + (seq![lv] + lines(nrest@))
                    =~= out@.map_values(|w: Vec<char>| w@) + lines(nrest@));
                rest = nrest;
            },
            None => {
                let ghost rv = rest@;
                out.push(rest);
                assert(out@.map_values(|w: Vec<char>| w@) =~= old_out.map_values(|w: Vec<char>| w@).push(rv));
                assert(old_out.map_values(|w: Vec<char>| w@) + seq![rv] =~= out@.map_values(
                    |w: Vec<char>| w@,
                ));
                break ;
            },
        }
    }
    out
}


/// The decimal digit character for `d` (`0 <= d < 10`).
pub open spec fn digit_char(d: int) -> char {
    if d == 0 {
        '0'
    } else if d == 1 {
        '1'
    } else if d == 2 {
        '2'
    } else if d == 3 {
        '3'
    } else if d == 4 {
        '4'
    } else if d == 5 {
        '5'
    } else if d == 6 {
        '6'
    } else if d == 7 {
        '7'
    } else if d == 8 {
        '8'
    } else {
        '9'
    }
}

pub fn digit(d: u64) -> (c: char)
    requires
        d < 10,
    ensures
        c == digit_char(d as int),
{
    if d == 0 {
        '0'
    } else if d == 1 {
        '1'
    } else if d == 2 {
        '2'
    } else if d == 3 {
        '3'
    } else if d == 4 {
        '4'
    } else if d == 5 {
        '5'
    } else if d == 6 {
        '6'
    } else if d == 7 {
        '7'
    } else if d == 8 {
        '8'
    } else {
        '9'
    }
}

/// The decimal representation of `n`, as `u64::to_string` writes it.
pub open spec fn decimal(n: nat) -> Seq<char>
    decreases n,
{
    if n < 10 {
        seq![digit_char(n as int)]
    } else {
        decimal(n / 10).push(digit_char((n % 10) as int))
    }
}

/// The decimal representation of a signed integer, with a leading `-` when negative.
pub open spec fn signed_decimal(n: int) -> Seq<char> {
    if n < 0 {
        seq!['-'] + decimal((-n) as nat)
    } else {
        decimal(n as nat)
    }
}

/// Appends the decimal representation of `n` to `v`.
pub fn push_decimal(v: &mut Vec<char>, n: u64)
    ensures
        final(v)@ == old(v)@ + decimal(n as nat),
    decreases n,
{
    if n >= 10 {
        push_decimal(v, n / 10);
    }
    v.push(digit(n % 10));
    assert(old(v)@ + decimal(n as nat) =~= final(v)@) by {
        if n >= 10 {
            assert(decimal(n as nat) == decimal((n / 10) as nat).push(digit_char((n % 10) as int)));
        }
    }
}

/// The decimal representation of `n` (`u64::to_string`).
pub fn decimal_chars(n: u64) -> (r: Vec<char>)
    ensures
        r@ == decimal(n as nat),
{
    let mut v: Vec<char> = Vec::new();
    push_decimal(&mut v, n);
    assert(v@ =~= decimal(n as nat));
    v
}

/// The decimal representation of `n` (`i64::to_string`).
pub fn signed_decimal_chars(n: i64) -> (r: Vec<char>)
    ensures
        r@ == signed_decimal(n as int),
{
    if n < 0 {
        let mut v: Vec<char> = Vec::new();
        v.push('-');
        let m: u64 = if n == i64::MIN {
            9223372036854775808u64
        } else {
            (-n) as u64
        };
        push_decimal(&mut v, m);
        assert(v@ =~= seq!['-'] + decimal((-(n as int)) as nat));
        v
    } else {
        decimal_chars(n as u64)
    }
}

/// The decimal representation of `n` as a string.
pub fn decimal_string(n: u64) -> (s: String)
    ensures
        s@ == decimal(n as nat),
{
    let v = decimal_chars(n);
    string_from_chars(v.as_slice())
}

/// The numeric value of an ASCII digit.
pub open spec fn digit_value(c: char) -> int {
    (c as u32) - 48
}

/// Every character of `s` is an ASCII digit.
pub open spec fn all_digits(s: Seq<char>) -> bool {
    forall|i: int| 0 <= i < s.len() ==> is_ascii_digit_spec(#[trigger] s[i])
}

/// The value of a string of decimal digits.
pub open spec fn digits_value(s: Seq<char>) -> int
    decreases s.len(),
{
    if s.len() == 0 {
        0
    } else {
        digits_value(s.drop_last()) * 10 + digit_value(s.last())
    }
}

/// `s` without one leading `+`.
pub open spec fn unsigned_digits(s: Seq<char>) -> Seq<char> {
    if s.len() > 0 && s[0] == '+' {
        s.drop_first()
    } else {
        s
    }
}

/// What `str::parse::<u32>` returns: an optional `+`, then one or more digits
/// whose value fits in a `u32`.
pub open spec fn parse_u32_spec(s: Seq<char>) -> Option<u32> {
    let d = unsigned_digits(s);
    if d.len() > 0 && all_digits(d) && digits_value(d) <= u32::MAX {
        Some(digits_value(d) as u32)
    } else {
        None
    }
}

pub proof fn lemma_digits_value_nonneg(s: Seq<char>)
    requires
        all_digits(s),
    ensures
        digits_value(s) >= 0,
    decreases s.len(),
{
    if s.len() > 0 {
        assert(is_ascii_digit_spec(s[s.len() - 1]));
        lemma_digits_value_nonneg(s.drop_last());
    }
}

pub proof fn lemma_digits_value_grows(s: Seq<char>, k: int)
    requires
        all_digits(s),
        0 <= k <= s.len(),
    ensures
        0 <= digits_value(s.take(k)) <= digits_value(s),
    decreases s.len() - k,
{
    if k < s.len() {
        lemma_digits_value_grows(s, k + 1);
        assert(s.take(k + 1).drop_last() =~= s.take(k));
        assert(is_ascii_digit_spec(s[k]));
        assert(all_digits(s.take(k)));
        lemma_digits_value_nonneg(s.take(k));
        assert(digits_value(s.take(k + 1)) == digits_value(s.take(k)) * 10 + digit_value(s[k]));
    } else {
        assert(s.take(k) =~= s);
        lemma_digits_value_nonneg(s);
    }
}

/// Parses `v` as `str::parse::<u32>` does.
pub fn parse_u32(v: &[char]) -> (r: Option<u32>)
    ensures
        r == parse_u32_spec(v@),
{
    let start: usize = if v.len() > 0 && v[0] == '+' {
        1
    } else {
        0
    };
    let ghost d = unsigned_digits(v@);
    assert(d =~= v@.skip(start as int));
    if start == v.len() {
        return None;
    }
    let mut acc: u64 = 0;
    let mut i: usize = start;
    while i < v.len()
        invariant
            start <= i <= v.len(),
            d == unsigned_digits(v@),
            d =~= v@.skip(start as int),
            all_digits(d.take(i - start)),
            acc == digits_value(d.take(i - start)),
            acc <= u32::MAX,
        decreases v.len() - i,
    {
        let c = v[i];
        if !is_ascii_digit(c) {
            assert(d[i - start] == c);
            assert(!is_ascii_digit_spec(d[i - start]));
            assert(!all_digits(d));
            return None;
        }
        let dv: u64 = (c as u32 - 48) as u64;
        let next = acc * 10 + dv;
        assert(d.take(i + 1 - start).drop_last() =~= d.take(i - start));
        assert(d.take(i + 1 - start).last() == c);
        if next > 4294967295 {
            proof {
                assert(all_digits(d.take(i + 1 - start)));
                if all_digits(d) {
                    lemma_digits_value_grows(d, i + 1 - start);
                    assert(digits_value(d.take(i + 1 - start)) == digits_value(d.take(i - start))
                        * 10 + digit_value(c));
                    assert(digits_value(d) > u32::MAX);
                }
            }
            return None;
        }
        acc = next;
        i = i + 1;
    }
    assert(d.take(v.len() - start) =~= d);
    Some(acc as u32)
}

/// The part of `s` before the first `c`, and the part after it (`str::split_once`).
pub open spec fn split_once(s: Seq<char>, c: char) -> Option<(Seq<char>, Seq<char>)> {
    match char_index_from(s, c, 0) {
        Some(i) => Some((s.take(i), s.skip(i + 1))),
        None => None,
    }
}


/// Whether two character sequences are equal.
pub fn eq_chars(a: &[char], b: &[char]) -> (r: bool)
    ensures
        r == (a@ == b@),
{
    if a.len() != b.len() {
        return false;
    }
    let m = matches_at(a, b, 0);
    assert(m ==> a@.subrange(0, b@.len() as int) =~= a@);
    assert(a@ == b@ ==> a@.subrange(0, b@.len() as int) =~= a@);
    m
}

/// Concatenation of two character sequences.
pub fn concat_chars(a: &[char], b: &[char]) -> (r: Vec<char>)
    ensures
        r@ == a@ + b@,
{
    let mut r = slice_of(a, 0, a.len());
    r.extend_from_slice(b);
    assert(r@ =~= a@ + b@);
    r
}


/// `s` with every occurrence of `from` replaced by `to`, scanning left to right
/// (`str::replace` with a non-empty pattern).
pub open spec fn replace_all(s: Seq<char>, from: Seq<char>, to: Seq<char>) -> Seq<char>
    recommends
        from.len() > 0,
    decreases s.len(),
{
    if from.len() == 0 {
        s
    } else {
        match find(s, from) {
            Some(i) => {
                proof {
                    lemma_find(s, from);
                }
                s.take(i) + to + replace_all(s.skip(i + from.len()), from, to)
            },
            None => s,
        }
    }
}

/// `v` with every occurrence of the non-empty pattern `from` replaced by `to`.
pub fn replace_all_chars(v: &[char], from: &[char], to: &[char]) -> (r: Vec<char>)
    requires
        from@.len() > 0,
    ensures
        r@ == replace_all(v@, from@, to@),
{
    let mut out: Vec<char> = Vec::new();
    let mut rest = slice_of(v, 0, v.len());
    assert(rest@ =~= v@);
    loop
        invariant_except_break
            from@.len() > 0,
            replace_all(v@, from@, to@) == out@ + replace_all(rest@, from@, to@),
        ensures
            replace_all(v@, from@, to@) == out@,
        decreases rest.len(),
    {
        match find_chars(rest.as_slice(), from) {
            Some(i) => {
                proof {
                    lemma_find(rest@, from@);
                }
                let head = slice_of(rest.as_slice(), 0, i);
                let nrest = slice_of(rest.as_slice(), i + from.len(), rest.len());
                assert(head@ =~= rest@.take(i as int));
                assert(nrest@ =~= rest@.skip(i + from@.len()));
                let ghost old_out = out@;
                out.extend_from_slice(head.as_slice());
                out.extend_from_slice(to);
                assert(old_out + (rest@.take(i as int) + to@ + replace_all(nrest@, from@, to@))
                    =~= out@ + replace_all(nrest@, from@, to@));
                rest = nrest;
            },
            None => {
                let ghost old_out = out@;
                out.extend_from_slice(rest.as_slice());
                assert(old_out + rest@ =~= out@);
                break ;
            },
        }
    }
    out
}

/// The parts of `s` between the occurrences of `c` (`str::split`).
pub open spec fn split_on(s: Seq<char>, c: char) -> Seq<Seq<char>>
    decreases s.len(),
{
    match char_index_from(s, c, 0) {
        Some(i) => if 0 <= i < s.len() {
            seq![s.take(i)] + split_on(s.skip(i + 1), c)
        } else {
            seq![s]
        },
        None => seq![s],
    }
}

/// The non-empty parts, in order.
pub open spec fn non_empty(parts: Seq<Seq<char>>) -> Seq<Seq<char>>
    decreases parts.len(),
{
    if parts.len() == 0 {
        parts
    } else {
        let rest = non_empty(parts.drop_last());
        if parts.last().len() == 0 {
            rest
        } else {
            rest.push(parts.last())
        }
    }
}

/// Dropping empty parts distributes over a part put in front of the rest.
proof fn lemma_non_empty_split(done: Seq<Seq<char>>, head: Seq<char>, rest: Seq<Seq<char>>)
    ensures
        non_empty(done + (seq![head] + rest)) == non_empty(
            (if head.len() > 0 {
                done.push(head)
            } else {
                done
            }) + rest,
        ),
    decreases rest.len(),
{
    if rest.len() == 0 {
        assert(done + (seq![head] + rest) =~= done.push(head));
        assert(done.push(head).drop_last() =~= done);
        if head.len() > 0 {
            assert(done.push(head) + rest =~= done.push(head));
        } else {
            assert(done + rest =~= done);
        }
    } else {
        lemma_non_empty_split(done, head, rest.drop_last());
        let pre = if head.len() > 0 {
            done.push(head)
        } else {
            done
        };
        assert((done + (seq![head] + rest)).drop_last() =~= done + (seq![head] + rest.drop_last()));
        assert((done + (seq![head] + rest)).last() == rest.last());
        assert((pre + rest).drop_last() =~= pre + rest.drop_last());
        assert((pre + rest).last() == rest.last());
    }
}

/// A list of non-empty parts is left as it is.
proof fn lemma_non_empty_all(parts: Seq<Seq<char>>)
    requires
        forall|k: int| 0 <= k < parts.len() ==> (#[trigger] parts[k]).len() > 0,
    ensures
        non_empty(parts) == parts,
    decreases parts.len(),
{
    if parts.len() > 0 {
        lemma_non_empty_all(parts.drop_last());
        assert(parts.drop_last().push(parts.last()) =~= parts);
    }
}


/// The non-empty parts of `v` between the occurrences of `c`, in order.
pub fn split_nonempty(v: &[char], c: char) -> (parts: Vec<Vec<char>>)
    ensures
        parts@.map_values(|w: Vec<char>| w@) == non_empty(split_on(v@, c)),
{
    let ghost full = v@;
    let mut parts: Vec<Vec<char>> = Vec::new();
    let mut rest = slice_of(v, 0, v.len());
    assert(rest@ =~= full);
    assert(parts@.map_values(|w: Vec<char>| w@) + split_on(rest@, c) =~= split_on(rest@, c));
    loop
        invariant_except_break
            non_empty(split_on(full, c)) == non_empty(parts@.map_values(|w: Vec<char>| w@) + split_on(rest@, c)),
            forall|k: int| 0 <= k < parts.len() ==> (#[trigger] parts@[k])@.len() > 0,
        ensures
            non_empty(split_on(full, c)) == parts@.map_values(|w: Vec<char>| w@),
        decreases rest.len(),
    {
        proof {
            lemma_char_index_from(rest@, c, 0);
        }
        match char_index(rest.as_slice(), c) {
            Some(k) => {
                let head = slice_of(rest.as_slice(), 0, k);
                let tail = slice_of(rest.as_slice(), k + 1, rest.len());
                let ghost pv = parts@.map_values(|w: Vec<char>| w@);
                assert(head@ =~= rest@.take(k as int));
                assert(tail@ =~= rest@.skip(k + 1));
                assert(split_on(rest@, c) == seq![head@] + split_on(tail@, c));
                proof {
                    lemma_non_empty_split(pv, head@, split_on(tail@, c));
                }
                if head.len() > 0 {
                    parts.push(head);
                    assert(parts@.map_values(|w: Vec<char>| w@) =~= pv.push(head@));
                }
                rest = tail;
            },
            None => {
                let ghost pv = parts@.map_values(|w: Vec<char>| w@);
                assert(split_on(rest@, c) == seq![rest@]);
                proof {
                    lemma_non_empty_split(pv, rest@, Seq::empty());
                    assert(seq![rest@] + Seq::<Seq<char>>::empty() =~= seq![rest@]);
                    assert(pv + Seq::<Seq<char>>::empty() =~= pv);
                }
                if rest.len() > 0 {
                    parts.push(rest);
                    assert(parts@.map_values(|w: Vec<char>| w@) =~= pv.push(rest@));
                }
                proof {
                    lemma_non_empty_all(parts@.map_values(|w: Vec<char>| w@));
                }
                break;
            },
        }
    }
    parts
}

/// The number of bytes of a character in UTF-8.
pub open spec fn utf8_width(c: char) -> nat {
    let u = c as u32;
    if u < 0x80 {
        1
    } else if u < 0x800 {
        2
    } else if u < 0x10000 {
        3
    } else {
        4
    }
}

/// The number of bytes of a text in UTF-8 (`str::len`).
pub open spec fn utf8_len(s: Seq<char>) -> nat
    decreases s.len(),
{
    if s.len() == 0 {
        0
    } else {
        utf8_len(s.drop_last()) + utf8_width(s.last())
    }
}

/// The number of bytes of a text in UTF-8.
pub fn utf8_len_of(v: &[char]) -> (n: u128)
    ensures
        n == utf8_len(v@),
{
    let mut n: u128 = 0;
    let mut i: usize = 0;
    while i < v.len()
        invariant
            i <= v.len(),
            n == utf8_len(v@.take(i as int)),
            n <= 4 * i,
        decreases v.len() - i,
    {
        assert(v@.take(i + 1).drop_last() =~= v@.take(i as int));
        assert(v@.take(i + 1).last() == v@[i as int]);
        let u = v[i] as u32;
        let w: u128 = if u < 0x80 {
            1
        } else if u < 0x800 {
            2
        } else if u < 0x10000 {
            3
        } else {
            4
        };
        n = n + w;
        i = i + 1;
    }
    assert(v@.take(v.len() as int) =~= v@);
    n
}

} // verus!

