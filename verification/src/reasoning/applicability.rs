//! Applicability signals between a case's holdings and a claim, in whole
//! numbers: shared words, shared legal concepts, how much of the extracted
//! rule the claim repeats, and the year the case was filed. The weighting
//! of these signals into a score is done by the caller.
use vstd::prelude::*;
use crate::text::{chars_of, chars_of_string, contains, contains_chars, join, join_chars, lowercase, slice_chars, string_of, to_lowercase, utf8_len, views, byte_len};
use crate::json::{opt_view, str_views};

verus! {

/// How applicable a case is to a claim.
#[derive(Debug, Clone, Copy, PartialEq, Eq, Structural)]
pub enum ApplicabilityVerdict {
    HighlyApplicable,
    ModeratelyApplicable,
    WeaklyApplicable,
    NotApplicable,
}

/// Whether a character has the Unicode `Alphabetic` property, the
/// property that `char::is_alphabetic` tests (it takes tables to state).
pub uninterp spec fn alphabetic(c: char) -> bool;

/// Whether a character is alphabetic.
///
/// Trusted: calls `char::is_alphabetic`; the contract names its result,
/// a function of the character alone.
#[verifier::external_body]
fn is_alphabetic(c: char) -> (r: bool)
    ensures
        r == alphabetic(c),
{
    c.is_alphabetic()
}

/// Whether `s[a..b]` is a maximal run of alphabetic characters: a piece
/// between two separators when the text is split at every non-alphabetic
/// character.
pub open spec fn is_word(s: Seq<char>, a: int, b: int) -> bool {
    &&& 0 <= a <= b <= s.len()
    &&& forall|k: int| a <= k < b ==> alphabetic(#[trigger] s[k])
    &&& (a == 0 || !alphabetic(s[a - 1]))
    &&& (b == s.len() || !alphabetic(s[b]))
}

/// Whether `w` counts as a token: longer than three bytes.
pub open spec fn long_enough(w: Seq<char>) -> bool {
    utf8_len(w) > 3
}

/// The tokens of `s` among the words that end before position `i`.
pub open spec fn words_before(s: Seq<char>, i: int) -> Set<Seq<char>> {
    Set::new(
        |w: Seq<char>|
            exists|a: int, b: int|
                #![trigger is_word(s, a, b), s.subrange(a, b)]
                is_word(s, a, b) && b < i && s.subrange(a, b) == w && long_enough(w),
    )
}

/// The tokens of a text: its words longer than three bytes.
pub open spec fn token_set(s: Seq<char>) -> Set<Seq<char>> {
    words_before(s, s.len() as int + 1)
}

/// The tokens of a text once lower-cased.
pub open spec fn tokens_of(text: Seq<char>) -> Set<Seq<char>> {
    token_set(lowercase(text))
}

/// A word as a set of tokens: itself when long enough, else nothing.
pub open spec fn as_token(w: Seq<char>) -> Set<Seq<char>> {
    if long_enough(w) {
        set![w]
    } else {
        Set::empty()
    }
}

/// Every word that ends at `i` starts at `st`, when `s[st..i]` is all
/// alphabetic and `st` starts a word.
proof fn lemma_word_start(s: Seq<char>, st: int, i: int, a: int)
    requires
        0 <= st <= i <= s.len(),
        forall|k: int| st <= k < i ==> alphabetic(#[trigger] s[k]),
        st == 0 || !alphabetic(s[st - 1]),
        is_word(s, a, i),
    ensures
        a == st,
{
    if a < st {
        assert(alphabetic(s[st - 1]));
    } else if a > st {
        assert(alphabetic(s[a - 1]));
    }
}

/// Scanning one more character: an alphabetic one ends no word; any other
/// ends the word that started at `st`.
proof fn lemma_words_step(s: Seq<char>, st: int, i: int)
    requires
        0 <= st <= i < s.len(),
        forall|k: int| st <= k < i ==> alphabetic(#[trigger] s[k]),
        st == 0 || !alphabetic(s[st - 1]),
    ensures
        alphabetic(s[i]) ==> words_before(s, i + 1) == words_before(s, i),
        !alphabetic(s[i]) ==> words_before(s, i + 1) == words_before(s, i).union(
            as_token(s.subrange(st, i)),
        ),
{
    assert forall|w: Seq<char>| #[trigger] words_before(s, i + 1).contains(w) implies (if alphabetic(s[i]) {
        words_before(s, i).contains(w)
    } else {
        words_before(s, i).union(as_token(s.subrange(st, i))).contains(w)
    }) by {
        let (a, b) = choose|a: int, b: int|
            #![trigger is_word(s, a, b), s.subrange(a, b)]
            is_word(s, a, b) && b < i + 1 && s.subrange(a, b) == w && long_enough(w);
        if b < i {
            assert(words_before(s, i).contains(w));
        } else {
            lemma_word_start(s, st, i, a);
        }
    }
    if !alphabetic(s[i]) {
        assert(is_word(s, st, i));
        assert forall|w: Seq<char>| #[trigger] words_before(s, i).union(as_token(s.subrange(st, i))).contains(w)
            implies words_before(s, i + 1).contains(w) by {
            if words_before(s, i).contains(w) {
                let (a, b) = choose|a: int, b: int|
                    #![trigger is_word(s, a, b), s.subrange(a, b)]
                    is_word(s, a, b) && b < i && s.subrange(a, b) == w && long_enough(w);
                assert(is_word(s, a, b) && b < i + 1);
            } else {
                assert(is_word(s, st, i) && i < i + 1 && s.subrange(st, i) == w);
            }
        }
        assert(words_before(s, i + 1) =~= words_before(s, i).union(as_token(s.subrange(st, i))));
    } else {
        assert(words_before(s, i + 1) =~= words_before(s, i));
    }
}

/// At the end of the text the last word, which started at `st`, is added.
proof fn lemma_words_end(s: Seq<char>, st: int)
    requires
        0 <= st <= s.len(),
        forall|k: int| st <= k < s.len() ==> alphabetic(#[trigger] s[k]),
        st == 0 || !alphabetic(s[st - 1]),
    ensures
        token_set(s) == words_before(s, s.len() as int).union(as_token(s.subrange(st, s.len() as int))),
{
    let n = s.len() as int;
    assert(is_word(s, st, n));
    assert forall|w: Seq<char>| #[trigger] token_set(s).contains(w) implies words_before(s, n).union(
        as_token(s.subrange(st, n)),
    ).contains(w) by {
        let (a, b) = choose|a: int, b: int|
            #![trigger is_word(s, a, b), s.subrange(a, b)]
            is_word(s, a, b) && b < n + 1 && s.subrange(a, b) == w && long_enough(w);
        if b < n {
            assert(words_before(s, n).contains(w));
        } else {
            lemma_word_start(s, st, n, a);
        }
    }
    assert forall|w: Seq<char>| #[trigger] words_before(s, n).union(as_token(s.subrange(st, n))).contains(w)
        implies token_set(s).contains(w) by {
        if words_before(s, n).contains(w) {
            let (a, b) = choose|a: int, b: int|
                #![trigger is_word(s, a, b), s.subrange(a, b)]
                is_word(s, a, b) && b < n && s.subrange(a, b) == w && long_enough(w);
            assert(is_word(s, a, b) && b < n + 1);
        } else {
            assert(is_word(s, st, n) && n < n + 1 && s.subrange(st, n) == w);
        }
    }
    assert(token_set(s) =~= words_before(s, n).union(as_token(s.subrange(st, n))));
}

/// The set of the texts in a vector of strings.
pub open spec fn string_set(v: Seq<String>) -> Set<Seq<char>> {
    str_views(v).to_set()
}

/// Whether `v` holds `w`.
fn holds(v: &Vec<String>, w: &String) -> (r: bool)
    ensures
        r == str_views(v@).contains(w@),
{
    for i in 0..v.len()
        invariant
            forall|k: int| 0 <= k < i ==> (#[trigger] v@[k])@ != w@,
    {
        if v[i] == *w {
            assert(str_views(v@)[i as int] == w@);
            return true;
        }
    }
    assert forall|k: int| 0 <= k < str_views(v@).len() implies str_views(v@)[k] != w@ by {
        assert(str_views(v@)[k] == v@[k]@);
    }
    false
}

/// Adds `w` to a vector without duplicates when it is not there yet.
fn add_unique(out: &mut Vec<String>, w: String)
    requires
        str_views(old(out)@).no_duplicates(),
    ensures
        str_views(final(out)@).no_duplicates(),
        string_set(final(out)@) == string_set(old(out)@).insert(w@),
{
    if !holds(out, &w) {
        let ghost before = str_views(out@);
        let ghost wv = w@;
        out.push(w);
        assert(str_views(out@) =~= before.push(wv));
        assert forall|x: Seq<char>| #[trigger] str_views(out@).contains(x) <==> (before.contains(x)
            || x == wv) by {
            let sv = str_views(out@);
            if sv.contains(x) {
                let k = choose|k: int| 0 <= k < sv.len() && sv[k] == x;
                if k < before.len() {
                    assert(before[k] == x);
                }
            }
            if before.contains(x) {
                let k = choose|k: int| 0 <= k < before.len() && before[k] == x;
                assert(sv[k] == x);
            }
            if x == wv {
                assert(sv[before.len() as int] == wv);
            }
        }
        assert(string_set(out@) =~= before.to_set().insert(wv));
    } else {
        assert(string_set(out@) =~= string_set(out@).insert(w@));
    }
}

/// Adds a word to the tokens when it is long enough.
fn add_token(out: &mut Vec<String>, w: &Vec<char>)
    requires
        str_views(old(out)@).no_duplicates(),
    ensures
        str_views(final(out)@).no_duplicates(),
        string_set(final(out)@) == string_set(old(out)@).union(as_token(w@)),
{
    let s = string_of(w);
    if byte_len(s.as_str()) > 3 {
        add_unique(out, s);
        assert(string_set(out@) =~= string_set(old(out)@).union(as_token(w@)));
    } else {
        assert(string_set(out@) =~= string_set(old(out)@).union(as_token(w@)));
    }
}

/// The tokens of a text: it is lower-cased and split at every
/// non-alphabetic character, and the pieces longer than three bytes are
/// kept, each once.
pub fn tokenize(text: &str) -> (r: Vec<String>)
    ensures
        string_set(r@) == tokens_of(text@),
        str_views(r@).no_duplicates(),
{
    let s = to_lowercase(&chars_of(text));
    let n = s.len();
    let mut out: Vec<String> = Vec::new();
    let mut st: usize = 0;
    assert(string_set(out@) =~= words_before(s@, 0));
    for i in 0..n
        invariant
            n == s@.len(),
            st <= i,
            forall|k: int| st <= k < i ==> alphabetic(#[trigger] s@[k]),
            st == 0 || !alphabetic(s@[st - 1]),
            str_views(out@).no_duplicates(),
            string_set(out@) == words_before(s@, i as int),
    {
        proof {
            lemma_words_step(s@, st as int, i as int);
        }
        if !is_alphabetic(s[i]) {
            let w = slice_chars(&s, st, i);
            add_token(&mut out, &w);
            st = i + 1;
        }
    }
    proof {
        lemma_words_end(s@, st as int);
    }
    let w = slice_chars(&s, st, n);
    add_token(&mut out, &w);
    out
}

/// The tokens of several texts together.
pub open spec fn tokens_of_all(texts: Seq<Seq<char>>) -> Set<Seq<char>>
    decreases texts.len(),
{
    if texts.len() == 0 {
        Set::empty()
    } else {
        tokens_of_all(texts.drop_last()).union(tokens_of(texts.last()))
    }
}

/// Adds every string of `v` to `out`, each once.
fn add_all_unique(out: &mut Vec<String>, v: Vec<String>)
    requires
        str_views(old(out)@).no_duplicates(),
    ensures
        str_views(final(out)@).no_duplicates(),
        string_set(final(out)@) == string_set(old(out)@).union(string_set(v@)),
{
    let ghost start = string_set(out@);
    for j in 0..v.len()
        invariant
            str_views(out@).no_duplicates(),
            string_set(out@) == start.union(string_set(v@.take(j as int))),
    {
        let ghost pre = string_set(v@.take(j as int));
        add_unique(out, v[j].clone());
        assert(string_set(v@.take(j + 1)) =~= pre.insert(v@[j as int]@)) by {
            assert(str_views(v@.take(j + 1)) =~= str_views(v@.take(j as int)).push(v@[j as int]@));
            let sv = str_views(v@.take(j + 1));
            let sp = str_views(v@.take(j as int));
            assert forall|x: Seq<char>| #[trigger] sv.contains(x) <==> (sp.contains(x) || x == v@[j as int]@) by {
                if sv.contains(x) {
                    let k = choose|k: int| 0 <= k < sv.len() && sv[k] == x;
                    if k < sp.len() {
                        assert(sp[k] == x);
                    }
                }
                if sp.contains(x) {
                    let k = choose|k: int| 0 <= k < sp.len() && sp[k] == x;
                    assert(sv[k] == x);
                }
                if x == v@[j as int]@ {
                    assert(sv[sp.len() as int] == x);
                }
            }
        }
        assert(string_set(out@) =~= start.union(string_set(v@.take(j + 1))));
    }
    assert(v@.take(v@.len() as int) =~= v@);
}

/// How many strings of `a` also occur in `b`: the size of the
/// intersection of their sets, `a` holding no string twice.
fn count_common(a: &Vec<String>, b: &Vec<String>) -> (r: usize)
    requires
        str_views(a@).no_duplicates(),
    ensures
        r == string_set(a@).intersect(string_set(b@)).len(),
{
    broadcast use vstd::set::group_set_axioms, vstd::seq_lib::seq_to_set_is_finite;

    let ghost bs = string_set(b@);
    let mut n: usize = 0;
    assert(string_set(a@.take(0)).intersect(bs) =~= Set::empty());
    for i in 0..a.len()
        invariant
            bs == string_set(b@),
            str_views(a@).no_duplicates(),
            n <= i,
            n == string_set(a@.take(i as int)).intersect(bs).len(),
    {
        let ghost pre = string_set(a@.take(i as int));
        let ghost x = a@[i as int]@;
        assert(string_set(a@.take(i + 1)) =~= pre.insert(x)) by {
            let sv = str_views(a@.take(i + 1));
            let sp = str_views(a@.take(i as int));
            assert(sv =~= sp.push(x));
            assert forall|y: Seq<char>| #[trigger] sv.contains(y) <==> (sp.contains(y) || y == x) by {
                if sv.contains(y) {
                    let k = choose|k: int| 0 <= k < sv.len() && sv[k] == y;
                    if k < sp.len() {
                        assert(sp[k] == y);
                    }
                }
                if sp.contains(y) {
                    let k = choose|k: int| 0 <= k < sp.len() && sp[k] == y;
                    assert(sv[k] == y);
                }
                if y == x {
                    assert(sv[sp.len() as int] == y);
                }
            }
        }
        assert(!pre.contains(x)) by {
            if pre.contains(x) {
                let sp = str_views(a@.take(i as int));
                let k = choose|k: int| 0 <= k < sp.len() && sp[k] == x;
                assert(str_views(a@)[k] == str_views(a@)[i as int]);
            }
        }
        if holds(b, &a[i]) {
            assert(pre.insert(x).intersect(bs) =~= pre.intersect(bs).insert(x));
            n = n + 1;
        } else {
            assert(pre.insert(x).intersect(bs) =~= pre.intersect(bs));
        }
    }
    assert(a@.take(a@.len() as int) =~= a@);
    n
}

/// The number of strings in a vector without duplicates is the size of its set.
proof fn lemma_unique_len(v: Seq<String>)
    requires
        str_views(v).no_duplicates(),
    ensures
        string_set(v).len() == v.len(),
{
    str_views(v).unique_seq_to_set();
}

/// The tokens of every text of a list, each once.
fn tokens_of_texts(texts: &[String]) -> (r: Vec<String>)
    ensures
        string_set(r@) == tokens_of_all(str_views(texts@)),
        str_views(r@).no_duplicates(),
{
    let ghost tv = str_views(texts@);
    let mut out: Vec<String> = Vec::new();
    assert(string_set(out@) =~= Set::<Seq<char>>::empty());
    for i in 0..texts.len()
        invariant
            tv == str_views(texts@),
            str_views(out@).no_duplicates(),
            string_set(out@) == tokens_of_all(tv.take(i as int)),
    {
        assert(tv.take(i + 1).drop_last() =~= tv.take(i as int));
        assert(tv.take(i + 1).last() == texts@[i as int]@);
        let toks = tokenize(texts[i].as_str());
        add_all_unique(&mut out, toks);
    }
    assert(tv.take(texts@.len() as int) =~= tv);
    out
}

/// The word overlap between holdings and a claim: how many holding tokens
/// the claim also has, and how many holding tokens there are.
pub fn keyword_overlap_counts(holdings: &[String], claim_text: &str) -> (r: (usize, usize))
    ensures
        r.0 == tokens_of(claim_text@).intersect(tokens_of_all(str_views(holdings@))).len(),
        r.1 == tokens_of_all(str_views(holdings@)).len(),
{
    let claim_words = tokenize(claim_text);
    let holding_words = tokens_of_texts(holdings);
    let common = count_common(&holding_words, &claim_words);
    proof {
        lemma_unique_len(holding_words@);
        assert(string_set(holding_words@).intersect(string_set(claim_words@)) =~= string_set(
            claim_words@,
        ).intersect(string_set(holding_words@)));
    }
    (common, holding_words.len())
}

/// How much of an extracted rule a claim repeats: how many rule tokens the
/// claim has, and how many rule tokens there are; none without a rule.
pub fn rule_match_counts(rule: &Option<String>, claim_text: &str) -> (r: Option<(usize, usize)>)
    ensures
        match rule {
            None => r is None,
            Some(t) => r matches Some(p) && p.0 == tokens_of(t@).intersect(tokens_of(claim_text@)).len()
                && p.1 == tokens_of(t@).len(),
        },
{
    match rule {
        None => None,
        Some(t) => {
            let rule_words = tokenize(t.as_str());
            let claim_words = tokenize(claim_text);
            let m = count_common(&rule_words, &claim_words);
            proof {
                lemma_unique_len(rule_words@);
            }
            Some((m, rule_words.len()))
        },
    }
}

/// The legal concepts whose presence is compared.
pub open spec fn legal_concepts() -> Seq<Seq<char>> {
    seq![
        "constitutional"@, "due process"@, "equal protection"@, "fundamental right"@,
        "liberty"@, "property"@, "standing"@, "jurisdiction"@, "statute"@, "regulation"@,
        "amendment"@, "clause"@, "right"@, "freedom"@, "commerce"@, "contract"@,
        "negligence"@, "liability"@, "damages"@, "injunction"@, "remedy"@,
        "bankruptcy"@, "discharge"@, "creditor"@, "debtor"@, "estate"@,
        "corporation"@, "fiduciary"@, "duty"@, "breach"@, "tort"@,
    ]
}

/// The legal concepts that occur in a (lower-cased) text.
pub open spec fn concepts_in(t: Seq<char>) -> Set<Seq<char>> {
    Set::new(|c: Seq<char>| legal_concepts().contains(c) && contains(t, c))
}

/// The legal concepts as a vector.
fn concept_list() -> (r: Vec<&'static str>)
    ensures
        r@.map_values(|s: &str| s@) == legal_concepts(),
{
    let v: Vec<&'static str> = vec![
        "constitutional", "due process", "equal protection", "fundamental right",
        "liberty", "property", "standing", "jurisdiction", "statute", "regulation",
        "amendment", "clause", "right", "freedom", "commerce", "contract",
        "negligence", "liability", "damages", "injunction", "remedy",
        "bankruptcy", "discharge", "creditor", "debtor", "estate",
        "corporation", "fiduciary", "duty", "breach", "tort",
    ];
    assert(v@.map_values(|s: &str| s@) =~= legal_concepts());
    v
}

/// The legal concepts that occur in a text, each once.
fn concepts_of(t: &Vec<char>) -> (r: Vec<String>)
    ensures
        string_set(r@) == concepts_in(t@),
        str_views(r@).no_duplicates(),
{
    let list = concept_list();
    let ghost lv = list@.map_values(|s: &str| s@);
    let mut out: Vec<String> = Vec::new();
    for k in 0..list.len()
        invariant
            lv == list@.map_values(|s: &str| s@),
            lv == legal_concepts(),
            str_views(out@).no_duplicates(),
            string_set(out@) == Set::new(|c: Seq<char>| lv.take(k as int).contains(c) && contains(t@, c)),
    {
        let ghost pre = Set::new(|c: Seq<char>| lv.take(k as int).contains(c) && contains(t@, c));
        let c = chars_of(list[k]);
        assert(lv[k as int] == c@);
        let ghost t1 = lv.take(k + 1);
        let ghost t0 = lv.take(k as int);
        assert forall|x: Seq<char>| #[trigger] t1.contains(x) <==> (t0.contains(x) || x == c@) by {
            if t1.contains(x) {
                let i = choose|i: int| 0 <= i < t1.len() && t1[i] == x;
                if i < t0.len() {
                    assert(t0[i] == x);
                }
            }
            if t0.contains(x) {
                let i = choose|i: int| 0 <= i < t0.len() && t0[i] == x;
                assert(t1[i] == x);
            }
            if x == c@ {
                assert(t1[k as int] == x);
            }
        }
        if contains_chars(t, &c) {
            add_unique(&mut out, string_of(&c));
            assert(string_set(out@) =~= Set::new(|x: Seq<char>| lv.take(k + 1).contains(x) && contains(t@, x)));
        } else {
            assert(string_set(out@) =~= Set::new(|x: Seq<char>| lv.take(k + 1).contains(x) && contains(t@, x)));
        }
    }
    assert(lv.take(list@.len() as int) =~= lv);
    assert(string_set(out@) =~= concepts_in(t@));
    out
}

/// The concept overlap between holdings and a claim: how many of the
/// holdings' legal concepts the claim shares, and how many legal concepts
/// the holdings (joined by spaces) mention, both texts lower-cased.
pub fn concept_overlap_counts(holdings: &[String], claim_text: &str) -> (r: (usize, usize))
    ensures
        ({
            let h = concepts_in(lowercase(join(str_views(holdings@), " "@)));
            let c = concepts_in(lowercase(claim_text@));
            r.0 == c.intersect(h).len() && r.1 == h.len()
        }),
{
    let claim_lower = to_lowercase(&chars_of(claim_text));
    let mut parts: Vec<Vec<char>> = Vec::new();
    for i in 0..holdings.len()
        invariant
            views(parts@) == str_views(holdings@.take(i as int)),
    {
        let ghost before = parts@;
        parts.push(chars_of_string(&holdings[i]));
        assert(views(parts@) =~= views(before).push(holdings@[i as int]@));
        assert(str_views(holdings@.take(i + 1)) =~= str_views(holdings@.take(i as int)).push(holdings@[i as int]@));
    }
    assert(holdings@.take(holdings@.len() as int) =~= holdings@);
    let joined = join_chars(&parts, &chars_of(" "));
    let holdings_lower = to_lowercase(&joined);
    let claim_concepts = concepts_of(&claim_lower);
    let holding_concepts = concepts_of(&holdings_lower);
    let common = count_common(&holding_concepts, &claim_concepts);
    proof {
        lemma_unique_len(holding_concepts@);
        assert(string_set(holding_concepts@).intersect(string_set(claim_concepts@)) =~= string_set(
            claim_concepts@,
        ).intersect(string_set(holding_concepts@)));
    }
    (common, holding_concepts.len())
}

/// The value of a sequence of decimal digits.
pub open spec fn digits_value(s: Seq<char>) -> int
    decreases s.len(),
{
    if s.len() == 0 {
        0
    } else {
        10 * digits_value(s.drop_last()) + (s.last() as int - '0' as int)
    }
}

/// Whether every character is an ASCII digit.
pub open spec fn ascii_digits(s: Seq<char>) -> bool {
    forall|i: int| 0 <= i < s.len() ==> '0' <= #[trigger] s[i] <= '9'
}

/// The `i32` a text denotes (`str::parse::<i32>`): an optional `+` or `-`
/// and at least one ASCII digit, nothing else, within the range of `i32`.
pub open spec fn parse_i32_spec(s: Seq<char>) -> Option<int> {
    let neg = s.len() > 0 && s[0] == '-';
    let signed = s.len() > 0 && (s[0] == '-' || s[0] == '+');
    let body = if signed { s.drop_first() } else { s };
    let v = if neg { -digits_value(body) } else { digits_value(body) };
    if body.len() > 0 && ascii_digits(body) && -2147483648 <= v <= 2147483647 {
        Some(v)
    } else {
        None
    }
}

/// The text before the first `-` (all of it when there is none).
pub open spec fn before_dash(s: Seq<char>) -> Seq<char>
    decreases s.len(),
{
    if s.len() == 0 {
        seq![]
    } else if s[0] == '-' {
        seq![]
    } else {
        seq![s[0]] + before_dash(s.drop_first())
    }
}

/// The year a case was filed, from a date `YYYY-...`: none without a
/// date, 1900 when the part before the first `-` is not a number.
pub open spec fn filed_year_spec(date: Option<Seq<char>>) -> Option<int> {
    match date {
        None => None,
        Some(d) => Some(
            match parse_i32_spec(before_dash(d)) {
                Some(y) => y,
                None => 1900,
            },
        ),
    }
}

proof fn lemma_digits_value_nonneg(s: Seq<char>)
    requires
        ascii_digits(s),
    ensures
        digits_value(s) >= 0,
    decreases s.len(),
{
    if s.len() > 0 {
        assert(ascii_digits(s.drop_last())) by {
            assert forall|i: int| 0 <= i < s.drop_last().len() implies '0' <= #[trigger] s.drop_last()[i] <= '9' by {
                assert(s.drop_last()[i] == s[i]);
            }
        }
        lemma_digits_value_nonneg(s.drop_last());
    }
}

/// Parses a decimal `i32` as `str::parse::<i32>` does.
pub fn parse_i32(s: &Vec<char>) -> (r: Option<i32>)
    ensures
        match r {
            Some(v) => parse_i32_spec(s@) == Some(v as int),
            None => parse_i32_spec(s@) is None,
        },
{
    let n = s.len();
    let neg = n > 0 && s[0] == '-';
    let signed = n > 0 && (s[0] == '-' || s[0] == '+');
    let start: usize = if signed {
        1
    } else {
        0
    };
    let ghost body = if signed { s@.drop_first() } else { s@ };
    assert(body =~= s@.subrange(start as int, n as int));
    if start == n {
        assert(body.len() == 0);
        return None;
    }
    let mut acc: u64 = 0;
    let mut big = false;
    assert(!ascii_digits(body) ==> parse_i32_spec(s@) is None);
    for j in start..n
        invariant
            !ascii_digits(body) ==> parse_i32_spec(s@) is None,
            start <= j <= n,
            n == s@.len(),
            body == s@.subrange(start as int, n as int),
            ascii_digits(s@.subrange(start as int, j as int)),
            big ==> digits_value(s@.subrange(start as int, j as int)) > 2147483648,
            !big ==> acc == digits_value(s@.subrange(start as int, j as int)) && acc <= 2147483648,
    {
        let c = s[j];
        let ghost pre = s@.subrange(start as int, j as int);
        let ghost next = s@.subrange(start as int, j + 1);
        assert(next.drop_last() =~= pre);
        assert(next.last() == c);
        if !('0' <= c && c <= '9') {
            assert(!ascii_digits(body)) by {
                assert(body[j - start] == c);
            }
            return None;
        }
        assert(ascii_digits(next)) by {
            assert forall|i: int| 0 <= i < next.len() implies '0' <= #[trigger] next[i] <= '9' by {
                if i < pre.len() {
                    assert(next[i] == pre[i]);
                }
            }
        }
        proof {
            lemma_digits_value_nonneg(pre);
        }
        if !big {
            let d = (c as u32 - '0' as u32) as u64;
            acc = acc * 10 + d;
            if acc > 2147483648 {
                big = true;
            }
        }
    }
    assert(s@.subrange(start as int, n as int) =~= body);
    proof {
        lemma_digits_value_nonneg(body);
    }
    if big {
        return None;
    }
    if neg {
        let v: i64 = 0 - (acc as i64);
        Some(v as i32)
    } else if acc <= 2147483647 {
        Some(acc as i32)
    } else {
        None
    }
}

/// The year a case was filed, from its date.
pub fn filed_year(date_filed: &Option<String>) -> (r: Option<i32>)
    ensures
        match r {
            Some(y) => filed_year_spec(opt_view(*date_filed)) == Some(y as int),
            None => filed_year_spec(opt_view(*date_filed)) is None,
        },
{
    match date_filed {
        None => None,
        Some(d) => {
            let t = chars_of_string(d);
            let mut k: usize = 0;
            assert(t@.skip(0) =~= t@);
            assert(t@.take(0) + before_dash(t@) =~= before_dash(t@));
            while k < t.len() && t[k] != '-'
                invariant
                    k <= t@.len(),
                    before_dash(t@) == t@.take(k as int) + before_dash(t@.skip(k as int)),
                decreases t@.len() - k,
            {
                let ghost rest = t@.skip(k as int);
                assert(rest[0] == t@[k as int]);
                assert(rest.drop_first() =~= t@.skip(k + 1));
                assert(t@.take(k + 1) =~= t@.take(k as int).push(t@[k as int]));
                assert(t@.take(k as int) + (seq![t@[k as int]] + before_dash(t@.skip(k + 1))) =~= t@.take(k + 1)
                    + before_dash(t@.skip(k + 1)));
                k = k + 1;
            }
            proof {
                let rest = t@.skip(k as int);
                if k < t@.len() {
                    assert(rest[0] == '-');
                } else {
                    assert(rest.len() == 0);
                }
                assert(t@.take(k as int) + Seq::<char>::empty() =~= t@.take(k as int));
            }
            let head = slice_chars(&t, 0, k);
            assert(head@ =~= t@.take(k as int));
            match parse_i32(&head) {
                Some(y) => Some(y),
                None => Some(1900),
            }
        },
    }
}

} // verus!
