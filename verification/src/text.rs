//! Character-level text primitives: UTF-8 widths, Unicode white space,
//! word splitting and joining, trimming and substring search.
use vstd::prelude::*;
use vstd::utf8::*;
use vstd::string::StringSliceAdditionalSpecFns;

verus! {

/// The characters of a string slice, in order.
pub fn chars_of(s: &str) -> (v: Vec<char>)
    ensures
        v@ == s@,
{
    let mut v: Vec<char> = Vec::new();
    for c in it: s.chars()
        invariant
            v@ == it.seq().take(it.index()),
    {
        v.push(c);
    }
    v
}

/// Builds a `String` from a sequence of characters.
///
/// Trusted: calls `Iterator::collect` into a `String`; the contract claims
/// that the string holds exactly the given characters in order, which is
/// what `FromIterator<char> for String` documents.
#[verifier::external_body]
pub(crate) fn string_of(v: &Vec<char>) -> (s: String)
    ensures
        s@ == v@,
{
    v.iter().collect()
}

/// The characters of a `String`.
pub fn chars_of_string(s: &String) -> (v: Vec<char>)
    ensures
        v@ == s@,
{
    chars_of(s.as_str())
}

/// Appends `s` to `out`.
pub fn push_all(out: &mut Vec<char>, s: &Vec<char>)
    ensures
        final(out)@ == old(out)@ + s@,
{
    let ghost start = out@;
    for i in 0..s.len()
        invariant
            out@ == start + s@.take(i as int),
    {
        out.push(s[i]);
        assert(s@.take(i + 1) =~= s@.take(i as int).push(s@[i as int]));
    }
    assert(s@.take(s@.len() as int) =~= s@);
}

/// Appends the characters of a string slice to `out`.
pub fn push_str(out: &mut Vec<char>, s: &str)
    ensures
        final(out)@ == old(out)@ + s@,
{
    let v = chars_of(s);
    push_all(out, &v);
}

/// A copy of a sequence of characters.
pub fn copy_chars(s: &Vec<char>) -> (r: Vec<char>)
    ensures
        r@ == s@,
{
    let mut r: Vec<char> = Vec::new();
    push_all(&mut r, s);
    r
}

/// Whether two character sequences are equal.
pub fn chars_eq(a: &Vec<char>, b: &Vec<char>) -> (r: bool)
    ensures
        r == (a@ == b@),
{
    if a.len() != b.len() {
        return false;
    }
    for i in 0..a.len()
        invariant
            a@.len() == b@.len(),
            forall|j: int| 0 <= j < i ==> a@[j] == b@[j],
    {
        if a[i] != b[i] {
            return false;
        }
    }
    assert(a@ =~= b@);
    true
}

// ---------------------------------------------------------------------
// UTF-8 widths
// ---------------------------------------------------------------------

/// Number of bytes in the UTF-8 encoding of `c`.
pub open spec fn char_width(c: char) -> nat {
    if (c as u32) < 0x80 {
        1
    } else if (c as u32) < 0x800 {
        2
    } else if (c as u32) < 0x10000 {
        3
    } else {
        4
    }
}

/// Number of bytes in the UTF-8 encoding of `s`.
pub open spec fn utf8_len(s: Seq<char>) -> nat
    decreases s.len(),
{
    if s.len() == 0 {
        0
    } else {
        char_width(s[0]) + utf8_len(s.drop_first())
    }
}

/// The UTF-8 length of a concatenation is the sum of the lengths.
pub proof fn lemma_utf8_len_concat(a: Seq<char>, b: Seq<char>)
    ensures
        utf8_len(a + b) == utf8_len(a) + utf8_len(b),
    decreases a.len(),
{
    if a.len() > 0 {
        assert((a + b).drop_first() =~= a.drop_first() + b);
        lemma_utf8_len_concat(a.drop_first(), b);
    } else {
        assert(a + b =~= b);
    }
}

/// The UTF-8 length of `s` with one more character.
pub proof fn lemma_utf8_len_push(s: Seq<char>, c: char)
    ensures
        utf8_len(s.push(c)) == utf8_len(s) + char_width(c),
{
    lemma_utf8_len_concat(s, seq![c]);
    assert(s.push(c) =~= s + seq![c]);
    assert(seq![c].drop_first() =~= Seq::<char>::empty());
    assert(utf8_len(Seq::<char>::empty()) == 0);
    assert(utf8_len(seq![c]) == char_width(c) + utf8_len(seq![c].drop_first()));
}

/// A prefix is never longer in bytes than the whole.
pub proof fn lemma_utf8_len_take(s: Seq<char>, i: int)
    requires
        0 <= i <= s.len(),
    ensures
        utf8_len(s.take(i)) <= utf8_len(s),
        i <= utf8_len(s.take(i)),
{
    lemma_utf8_len_concat(s.take(i), s.skip(i));
    assert(s.take(i) + s.skip(i) =~= s);
    lemma_utf8_len_at_least_len(s.take(i));
}

/// Each character takes at least one byte.
pub proof fn lemma_utf8_len_at_least_len(s: Seq<char>)
    ensures
        s.len() <= utf8_len(s),
    decreases s.len(),
{
    if s.len() > 0 {
        lemma_utf8_len_at_least_len(s.drop_first());
    }
}

/// `utf8_len` agrees with the length of vstd's UTF-8 encoding.
pub proof fn lemma_utf8_len_encode(s: Seq<char>)
    ensures
        utf8_len(s) == encode_utf8(s).len(),
    decreases s.len(),
{
    if s.len() > 0 {
        char_is_scalar(s[0]);
        lemma_utf8_len_encode(s.drop_first());
    }
}

/// The byte length of a string slice (`str::len`), which is the UTF-8
/// length of its characters.
pub fn byte_len(s: &str) -> (n: usize)
    ensures
        n == utf8_len(s@),
{
    let b = s.as_bytes();
    proof {
        lemma_utf8_len_encode(s@);
    }
    b.len()
}

/// The UTF-8 width of one character, as `char::len_utf8` reports it.
pub fn utf8_width(c: char) -> (w: usize)
    ensures
        w == char_width(c),
        1 <= w <= 4,
{
    if (c as u32) < 0x80 {
        1
    } else if (c as u32) < 0x800 {
        2
    } else if (c as u32) < 0x10000 {
        3
    } else {
        4
    }
}

/// Byte offsets of every character boundary of `s`: `r[i]` is the
/// UTF-8 length of the first `i` characters.
pub fn byte_offsets(s: &Vec<char>) -> (r: Vec<usize>)
    requires
        utf8_len(s@) <= usize::MAX,
    ensures
        r@.len() == s@.len() + 1,
        forall|i: int| 0 <= i <= s@.len() ==> r@[i] == utf8_len(#[trigger] s@.take(i)),
{
    let mut r: Vec<usize> = Vec::new();
    let mut acc: usize = 0;
    r.push(0);
    assert(s@.take(0) =~= Seq::<char>::empty());
    for i in 0..s.len()
        invariant
            r@.len() == i + 1,
            utf8_len(s@) <= usize::MAX,
            acc == utf8_len(s@.take(i as int)),
            forall|j: int| 0 <= j <= i ==> r@[j] == utf8_len(#[trigger] s@.take(j)),
    {
        proof {
            assert(s@.take(i + 1) =~= s@.take(i as int).push(s@[i as int]));
            lemma_utf8_len_push(s@.take(i as int), s@[i as int]);
            lemma_utf8_len_take(s@, i + 1);
        }
        acc = acc + utf8_width(s[i]);
        r.push(acc);
    }
    r
}

/// Each character takes at least one byte, so longer prefixes take more bytes.
pub proof fn lemma_utf8_len_take_strict(s: Seq<char>, i: int, j: int)
    requires
        0 <= i < j <= s.len(),
    ensures
        utf8_len(s.take(i)) < utf8_len(s.take(j)),
{
    let mid = s.subrange(i, j);
    assert(s.take(j) =~= s.take(i) + mid);
    lemma_utf8_len_concat(s.take(i), mid);
    lemma_utf8_len_at_least_len(mid);
}

/// Whether byte offset `b` falls on a character boundary of `s`, the two
/// ends included.
pub open spec fn at_boundary(s: Seq<char>, b: int) -> bool {
    exists|k: int| 0 <= k <= s.len() && #[trigger] utf8_len(s.take(k)) == b
}

/// The character position of the boundary at byte offset `b`.
pub open spec fn char_pos(s: Seq<char>, b: int) -> int {
    choose|k: int| 0 <= k <= s.len() && #[trigger] utf8_len(s.take(k)) == b
}

/// The characters between the boundaries at byte offsets `a` and `b`,
/// which is what the byte range `a..b` of the string holds.
pub open spec fn byte_slice(s: Seq<char>, a: int, b: int) -> Seq<char> {
    s.subrange(char_pos(s, a), char_pos(s, b))
}

/// The boundary after `k` characters sits at position `k`.
pub proof fn lemma_char_pos(s: Seq<char>, k: int)
    requires
        0 <= k <= s.len(),
    ensures
        at_boundary(s, utf8_len(s.take(k)) as int),
        char_pos(s, utf8_len(s.take(k)) as int) == k,
{
    let b = utf8_len(s.take(k)) as int;
    assert(at_boundary(s, b));
    let c = char_pos(s, b);
    if c < k {
        lemma_utf8_len_take_strict(s, c, k);
    } else if c > k {
        lemma_utf8_len_take_strict(s, k, c);
    }
}

/// Boundaries are ordered as their byte offsets are.
pub proof fn lemma_char_pos_monotone(s: Seq<char>, a: int, b: int)
    requires
        at_boundary(s, a),
        at_boundary(s, b),
        a <= b,
    ensures
        0 <= char_pos(s, a) <= char_pos(s, b) <= s.len(),
        b <= utf8_len(s),
{
    let ka = char_pos(s, a);
    let kb = char_pos(s, b);
    if kb < ka {
        lemma_utf8_len_take_strict(s, kb, ka);
    }
    lemma_utf8_len_take(s, kb);
}

/// The character position of byte offset `b`, found among the byte
/// offsets `offs` of every boundary of `s`; `None` when `b` is no boundary.
pub fn boundary_index(s: &Vec<char>, offs: &Vec<usize>, b: usize) -> (r: Option<usize>)
    requires
        offs@.len() == s@.len() + 1,
        forall|i: int| 0 <= i <= s@.len() ==> offs@[i] == utf8_len(#[trigger] s@.take(i)),
    ensures
        r matches Some(k) ==> k <= s@.len() && at_boundary(s@, b as int) && char_pos(s@, b as int)
            == k,
        r is None ==> !at_boundary(s@, b as int),
{
    for k in 0..offs.len()
        invariant
            offs@.len() == s@.len() + 1,
            forall|i: int| 0 <= i <= s@.len() ==> offs@[i] == utf8_len(#[trigger] s@.take(i)),
            forall|i: int| 0 <= i < k ==> utf8_len(#[trigger] s@.take(i)) != b,
    {
        if offs[k] == b {
            proof {
                lemma_char_pos(s@, k as int);
            }
            return Some(k);
        }
        assert(utf8_len(s@.take(k as int)) != b);
    }
    None
}

/// The characters between the boundaries at byte offsets `a` and `b`.
pub fn byte_slice_of(s: &Vec<char>, offs: &Vec<usize>, a: usize, b: usize) -> (r: Vec<char>)
    requires
        offs@.len() == s@.len() + 1,
        forall|i: int| 0 <= i <= s@.len() ==> offs@[i] == utf8_len(#[trigger] s@.take(i)),
        at_boundary(s@, a as int),
        at_boundary(s@, b as int),
        a <= b,
    ensures
        r@ == byte_slice(s@, a as int, b as int),
{
    proof {
        lemma_char_pos_monotone(s@, a as int, b as int);
    }
    let ka = boundary_index(s, offs, a);
    let kb = boundary_index(s, offs, b);
    match (ka, kb) {
        (Some(i), Some(j)) => slice_chars(s, i, j),
        _ => Vec::new(),
    }
}

// ---------------------------------------------------------------------
// White space
// ---------------------------------------------------------------------

/// Unicode `White_Space`, the property that `char::is_whitespace` tests.
pub open spec fn is_ws(c: char) -> bool {
    let v = c as u32;
    (0x9 <= v <= 0xD) || v == 0x20 || v == 0x85 || v == 0xA0 || v == 0x1680 || (0x2000 <= v
        <= 0x200A) || v == 0x2028 || v == 0x2029 || v == 0x202F || v == 0x205F || v == 0x3000
}

/// Whether `c` is white space, as `char::is_whitespace` decides.
pub fn is_whitespace(c: char) -> (r: bool)
    ensures
        r == is_ws(c),
{
    let v = c as u32;
    (0x9 <= v && v <= 0xD) || v == 0x20 || v == 0x85 || v == 0xA0 || v == 0x1680 || (0x2000 <= v
        && v <= 0x200A) || v == 0x2028 || v == 0x2029 || v == 0x202F || v == 0x205F || v == 0x3000
}

/// Whether every character of `s` is white space (`s.trim().is_empty()`).
pub open spec fn is_blank(s: Seq<char>) -> bool {
    forall|i: int| 0 <= i < s.len() ==> is_ws(#[trigger] s[i])
}

// ---------------------------------------------------------------------
// Words and joining
// ---------------------------------------------------------------------

/// Concatenation of `parts` with `sep` between neighbours.
pub open spec fn join(parts: Seq<Seq<char>>, sep: Seq<char>) -> Seq<char>
    decreases parts.len(),
{
    if parts.len() == 0 {
        seq![]
    } else if parts.len() == 1 {
        parts[0]
    } else {
        join(parts.drop_last(), sep) + sep + parts.last()
    }
}

/// Joining one more part.
pub proof fn lemma_join_push(parts: Seq<Seq<char>>, sep: Seq<char>, p: Seq<char>)
    ensures
        join(parts.push(p), sep) == if parts.len() == 0 {
            p
        } else {
            join(parts, sep) + sep + p
        },
{
    assert(parts.push(p).drop_last() =~= parts);
}

/// The maximal runs of non-white-space characters of `s`, in order
/// (what `str::split_whitespace` yields).
pub open spec fn words(s: Seq<char>) -> Seq<Seq<char>>
    decreases s.len(),
{
    if s.len() == 0 {
        seq![]
    } else {
        let prev = words(s.drop_last());
        let c = s.last();
        if is_ws(c) {
            prev
        } else if s.len() >= 2 && !is_ws(s[s.len() - 2]) && prev.len() > 0 {
            prev.update(prev.len() - 1, prev.last().push(c))
        } else {
            prev.push(seq![c])
        }
    }
}

/// White space collapsed: the words of `s` joined by single spaces.
pub open spec fn normalize_ws(s: Seq<char>) -> Seq<char> {
    join(words(s), seq![' '])
}

/// Views of a vector of character vectors.
pub open spec fn views(v: Seq<Vec<char>>) -> Seq<Seq<char>> {
    v.map_values(|w: Vec<char>| w@)
}

/// Splits `s` into its words.
pub fn split_words(s: &Vec<char>) -> (r: Vec<Vec<char>>)
    ensures
        views(r@) == words(s@),
{
    let mut done: Vec<Vec<char>> = Vec::new();
    let mut cur: Vec<char> = Vec::new();
    assert(s@.take(0) =~= Seq::<char>::empty());
    for i in 0..s.len()
        invariant
            cur@.len() > 0 ==> i > 0 && !is_ws(s@[i - 1]),
            i > 0 && !is_ws(s@[i - 1]) ==> cur@.len() > 0,
            words(s@.take(i as int)) == if cur@.len() > 0 {
                views(done@).push(cur@)
            } else {
                views(done@)
            },
    {
        let c = s[i];
        let ghost pre = s@.take(i as int);
        proof {
            assert(s@.take(i + 1).drop_last() =~= pre);
            assert(s@.take(i + 1).last() == c);
            if i >= 1 {
                assert(s@.take(i + 1)[i - 1] == s@[i - 1]);
            }
        }
        if is_whitespace(c) {
            if cur.len() > 0 {
                let ghost before = done@;
                let w = copy_chars(&cur);
                done.push(w);
                cur = Vec::new();
                assert(views(done@) =~= views(before).push(w@));
            }
        } else {
            if cur.len() > 0 {
                let ghost before = views(done@).push(cur@);
                cur.push(c);
                assert(views(done@).push(cur@) =~= before.update(before.len() - 1, before.last().push(c)));
            } else {
                cur.push(c);
                assert(cur@ =~= seq![c]);
            }
        }
    }
    if cur.len() > 0 {
        done.push(cur);
    }
    assert(s@.take(s@.len() as int) =~= s@);
    assert(views(done@) =~= words(s@));
    done
}

/// Joins `parts` with `sep` between neighbours.
pub fn join_chars(parts: &Vec<Vec<char>>, sep: &Vec<char>) -> (r: Vec<char>)
    ensures
        r@ == join(views(parts@), sep@),
{
    let mut out: Vec<char> = Vec::new();
    for i in 0..parts.len()
        invariant
            out@ == join(views(parts@.take(i as int)), sep@),
    {
        proof {
            assert(views(parts@.take(i + 1)) =~= views(parts@.take(i as int)).push(parts@[i as int]@));
            lemma_join_push(views(parts@.take(i as int)), sep@, parts@[i as int]@);
        }
        if i > 0 {
            push_all(&mut out, sep);
        }
        push_all(&mut out, &parts[i]);
    }
    assert(parts@.take(parts@.len() as int) =~= parts@);
    out
}

/// White space collapsed (`split_whitespace` joined by `" "`).
pub fn normalize_spaces(s: &Vec<char>) -> (r: Vec<char>)
    ensures
        r@ == normalize_ws(s@),
{
    let ws = split_words(s);
    let sep = vec![' '];
    assert(sep@ =~= seq![' ']);
    join_chars(&ws, &sep)
}

// ---------------------------------------------------------------------
// Trimming
// ---------------------------------------------------------------------

/// `s` without leading white space.
pub open spec fn trim_start(s: Seq<char>) -> Seq<char>
    decreases s.len(),
{
    if s.len() > 0 && is_ws(s[0]) {
        trim_start(s.drop_first())
    } else {
        s
    }
}

/// `s` without trailing white space.
pub open spec fn trim_end(s: Seq<char>) -> Seq<char>
    decreases s.len(),
{
    if s.len() > 0 && is_ws(s.last()) {
        trim_end(s.drop_last())
    } else {
        s
    }
}

/// `s` without leading and trailing white space (`str::trim`).
pub open spec fn trim(s: Seq<char>) -> Seq<char> {
    trim_end(trim_start(s))
}

/// `trim_start` drops a prefix of white space.
proof fn lemma_trim_start_skip(s: Seq<char>, i: int)
    requires
        0 <= i <= s.len(),
        forall|j: int| 0 <= j < i ==> is_ws(s[j]),
    ensures
        trim_start(s) == trim_start(s.skip(i)),
    decreases i,
{
    if i > 0 {
        assert(s.skip(1) =~= s.drop_first());
        lemma_trim_start_skip(s.drop_first(), i - 1);
        assert(s.drop_first().skip(i - 1) =~= s.skip(i));
    } else {
        assert(s.skip(0) =~= s);
    }
}

/// `trim_end` drops a suffix of white space.
proof fn lemma_trim_end_take(s: Seq<char>, i: int)
    requires
        0 <= i <= s.len(),
        forall|j: int| i <= j < s.len() ==> is_ws(s[j]),
    ensures
        trim_end(s) == trim_end(s.take(i)),
    decreases s.len() - i,
{
    if i < s.len() {
        assert(s.take(s.len() - 1) =~= s.drop_last());
        lemma_trim_end_take(s.drop_last(), i);
        assert(s.drop_last().take(i) =~= s.take(i));
    } else {
        assert(s.take(i) =~= s);
    }
}

/// `s` without leading and trailing white space.
pub fn trim_chars(s: &Vec<char>) -> (r: Vec<char>)
    ensures
        r@ == trim(s@),
{
    let mut a: usize = 0;
    while a < s.len() && is_whitespace(s[a])
        invariant
            a <= s@.len(),
            forall|j: int| 0 <= j < a ==> is_ws(s@[j]),
        decreases s@.len() - a,
    {
        a = a + 1;
    }
    proof {
        lemma_trim_start_skip(s@, a as int);
    }
    let ghost t = s@.skip(a as int);
    assert(trim_start(t) == t) by {
        if t.len() > 0 {
            assert(t[0] == s@[a as int]);
        }
    }
    let mut b: usize = s.len();
    while b > a && is_whitespace(s[b - 1])
        invariant
            a <= b <= s@.len(),
            forall|j: int| b <= j < s@.len() ==> is_ws(s@[j]),
        decreases b,
    {
        b = b - 1;
    }
    proof {
        lemma_trim_end_take(t, b - a);
        let u = t.take(b - a);
        if u.len() > 0 {
            assert(u.last() == s@[b - 1]);
        }
        assert(trim_end(u) == u);
    }
    let mut r: Vec<char> = Vec::new();
    let mut k = a;
    while k < b
        invariant
            a <= k <= b <= s@.len(),
            r@ == s@.subrange(a as int, k as int),
        decreases b - k,
    {
        r.push(s[k]);
        assert(s@.subrange(a as int, k + 1) =~= s@.subrange(a as int, k as int).push(s@[k as int]));
        k = k + 1;
    }
    assert(r@ =~= t.take(b - a));
    r
}

// ---------------------------------------------------------------------
// Substring search
// ---------------------------------------------------------------------

/// Whether `needle` occurs in `hay` starting at character `i`.
pub open spec fn matches_at(hay: Seq<char>, needle: Seq<char>, i: int) -> bool {
    0 <= i && i + needle.len() <= hay.len() && hay.subrange(i, i + needle.len()) == needle
}

/// Whether `needle` occurs anywhere in `hay` (`str::contains`).
pub open spec fn contains(hay: Seq<char>, needle: Seq<char>) -> bool {
    exists|i: int| matches_at(hay, needle, i)
}

/// The first position at or after `from` where `needle` occurs.
pub open spec fn find_from(hay: Seq<char>, needle: Seq<char>, from: int) -> Option<int>
    decreases hay.len() + 1 - from,
{
    if from < 0 || from + needle.len() > hay.len() {
        None
    } else if matches_at(hay, needle, from) {
        Some(from)
    } else {
        find_from(hay, needle, from + 1)
    }
}

/// `find_from` finds a match exactly when one exists at or after `from`.
pub proof fn lemma_find_from(hay: Seq<char>, needle: Seq<char>, from: int)
    requires
        0 <= from,
    ensures
        find_from(hay, needle, from) matches Some(i) ==> from <= i && matches_at(hay, needle, i)
            && forall|j: int| from <= j < i ==> !matches_at(hay, needle, j),
        find_from(hay, needle, from) is None ==> forall|j: int|
            from <= j ==> !matches_at(hay, needle, j),
    decreases hay.len() + 1 - from,
{
    if from + needle.len() > hay.len() {
    } else if matches_at(hay, needle, from) {
    } else {
        lemma_find_from(hay, needle, from + 1);
    }
}

/// Whether `needle` occurs in `hay` at character `i`.
pub fn occurs_at(hay: &Vec<char>, needle: &Vec<char>, i: usize) -> (r: bool)
    ensures
        r == matches_at(hay@, needle@, i as int),
{
    if i > hay.len() || needle.len() > hay.len() - i {
        return false;
    }
    let mut k: usize = 0;
    while k < needle.len()
        invariant
            i + needle@.len() <= hay@.len(),
            hay@.len() == hay.len(),
            k <= needle@.len(),
            forall|j: int| 0 <= j < k ==> hay@[i + j] == needle@[j],
        decreases needle@.len() - k,
    {
        assert(i + k < hay@.len());
        if hay[i + k] != needle[k] {
            assert(hay@.subrange(i as int, i + needle@.len())[k as int] != needle@[k as int]);
            return false;
        }
        k = k + 1;
    }
    assert(hay@.subrange(i as int, i + needle@.len()) =~= needle@);
    true
}

/// The first position at or after `from` where `needle` occurs.
pub fn find_chars(hay: &Vec<char>, needle: &Vec<char>, from: usize) -> (r: Option<usize>)
    ensures
        r matches Some(i) ==> find_from(hay@, needle@, from as int) == Some(i as int),
        r is None ==> find_from(hay@, needle@, from as int) is None,
{
    if from > hay.len() {
        return None;
    }
    let mut i = from;
    while needle.len() <= hay.len() - i
        invariant
            from <= i <= hay@.len(),
            find_from(hay@, needle@, from as int) == find_from(hay@, needle@, i as int),
        decreases hay@.len() + 1 - i,
    {
        if occurs_at(hay, needle, i) {
            return Some(i);
        }
        if i == hay.len() {
            assert(hay@.subrange(i as int, i as int) =~= needle@);
            return None;
        }
        i = i + 1;
    }
    None
}

/// Whether `needle` occurs in `hay`.
pub fn contains_chars(hay: &Vec<char>, needle: &Vec<char>) -> (r: bool)
    ensures
        r == contains(hay@, needle@),
{
    proof {
        lemma_find_from(hay@, needle@, 0);
    }
    match find_chars(hay, needle, 0) {
        Some(_) => true,
        None => false,
    }
}

/// Whether `needle`, given as a string slice, occurs in `hay`.
pub fn contains_str(hay: &Vec<char>, needle: &str) -> (r: bool)
    ensures
        r == contains(hay@, needle@),
{
    let n = chars_of(needle);
    contains_chars(hay, &n)
}

/// `s.take(i)` extended by the next character.
pub proof fn lemma_take_push(s: Seq<char>, i: int)
    requires
        0 <= i < s.len(),
    ensures
        s.take(i + 1) == s.take(i).push(s[i]),
{
    assert(s.take(i + 1) =~= s.take(i).push(s[i]));
}

/// The characters of `s` from `a` up to `b`.
pub fn slice_chars(s: &Vec<char>, a: usize, b: usize) -> (r: Vec<char>)
    requires
        a <= b <= s@.len(),
    ensures
        r@ == s@.subrange(a as int, b as int),
{
    let mut r: Vec<char> = Vec::new();
    let mut k = a;
    while k < b
        invariant
            a <= k <= b <= s@.len(),
            r@ == s@.subrange(a as int, k as int),
        decreases b - k,
    {
        r.push(s[k]);
        assert(s@.subrange(a as int, k + 1) =~= s@.subrange(a as int, k as int).push(s@[k as int]));
        k = k + 1;
    }
    r
}

// ---------------------------------------------------------------------
// Lower case
// ---------------------------------------------------------------------

/// What `str::to_lowercase` returns for a text: the Unicode lower-case
/// mapping, which takes tables to state and depends on the text alone.
pub uninterp spec fn lowercase(s: Seq<char>) -> Seq<char>;

/// The lower-case form of a text.
///
/// Trusted: calls `str::to_lowercase`; the contract only names its result,
/// a function of the characters of the input.
#[verifier::external_body]
pub(crate) fn str_to_lowercase(s: &str) -> (r: String)
    ensures
        r@ == lowercase(s@),
{
    s.to_lowercase()
}

/// The lower-case form of a character sequence.
pub fn to_lowercase(s: &Vec<char>) -> (r: Vec<char>)
    ensures
        r@ == lowercase(s@),
{
    let t = string_of(s);
    let l = str_to_lowercase(t.as_str());
    chars_of(l.as_str())
}

} // verus!
