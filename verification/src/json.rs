//! Compact JSON text, laid out the way `serde_json::to_vec` writes the
//! records of this crate: no white space, fields in declaration order,
//! strings escaped with `\"`, `\\`, `\b`, `\t`, `\n`, `\f`, `\r` and
//! `\u00xx` for the other control characters.
use vstd::prelude::*;
use crate::text::{chars_of, join, lemma_join_push, lemma_take_push, push_all, push_str, views};

verus! {

/// The decimal digit for a value below ten.
pub open spec fn digit(d: nat) -> char {
    if d == 0 {
        '0'
    } else if d == 1 {
        '1'
    } else if d == 2 {
        '2'
    } else if d == 3 {
        '3'
    } else if d == 4 {
        '4'
    } else if d == 5 {
        '5'
    } else if d == 6 {
        '6'
    } else if d == 7 {
        '7'
    } else if d == 8 {
        '8'
    } else {
        '9'
    }
}

/// Decimal form of a natural number, without leading zeros.
pub open spec fn decimal(n: nat) -> Seq<char>
    decreases n,
{
    if n < 10 {
        seq![digit(n)]
    } else {
        decimal(n / 10).push(digit(n % 10))
    }
}

/// Decimal form of an integer, with a leading `-` when negative.
pub open spec fn json_int(i: int) -> Seq<char> {
    if i < 0 {
        seq!['-'] + decimal((-i) as nat)
    } else {
        decimal(i as nat)
    }
}

/// The lower-case hex digit of a value below sixteen.
pub open spec fn hex_char(d: nat) -> char {
    if d < 10 {
        digit(d)
    } else if d == 10 {
        'a'
    } else if d == 11 {
        'b'
    } else if d == 12 {
        'c'
    } else if d == 13 {
        'd'
    } else if d == 14 {
        'e'
    } else {
        'f'
    }
}

/// How one character is written inside a JSON string.
pub open spec fn escape_char(c: char) -> Seq<char> {
    if c == '"' {
        seq!['\\', '"']
    } else if c == '\\' {
        seq!['\\', '\\']
    } else if c == '\n' {
        seq!['\\', 'n']
    } else if c == '\r' {
        seq!['\\', 'r']
    } else if c == '\t' {
        seq!['\\', 't']
    } else if (c as u32) == 8 {
        seq!['\\', 'b']
    } else if (c as u32) == 12 {
        seq!['\\', 'f']
    } else if (c as u32) < 0x20 {
        seq!['\\', 'u', '0', '0', hex_char((c as u32 / 16) as nat), hex_char((c as u32 % 16) as nat)]
    } else {
        seq![c]
    }
}

/// The escaped characters of a JSON string body.
pub open spec fn escape(s: Seq<char>) -> Seq<char>
    decreases s.len(),
{
    if s.len() == 0 {
        seq![]
    } else {
        escape(s.drop_last()) + escape_char(s.last())
    }
}

/// A JSON string literal.
pub open spec fn json_str(s: Seq<char>) -> Seq<char> {
    seq!['"'] + escape(s) + seq!['"']
}

/// A JSON object key and its colon.
pub open spec fn key(k: Seq<char>) -> Seq<char> {
    json_str(k) + seq![':']
}

/// `null` or the string.
pub open spec fn json_opt_str(o: Option<Seq<char>>) -> Seq<char> {
    match o {
        Some(s) => json_str(s),
        None => "null"@,
    }
}

/// `null` or the integer.
pub open spec fn json_opt_int(o: Option<int>) -> Seq<char> {
    match o {
        Some(i) => json_int(i),
        None => "null"@,
    }
}

/// `true` or `false`.
pub open spec fn json_bool(b: bool) -> Seq<char> {
    if b {
        "true"@
    } else {
        "false"@
    }
}

/// A JSON array of already encoded items.
pub open spec fn json_array(items: Seq<Seq<char>>) -> Seq<char> {
    seq!['['] + join(items, seq![',']) + seq![']']
}

/// A JSON array of strings.
pub open spec fn json_str_array(v: Seq<Seq<char>>) -> Seq<char> {
    json_array(v.map_values(|s: Seq<char>| json_str(s)))
}

/// Views of a vector of strings.
pub open spec fn str_views(v: Seq<String>) -> Seq<Seq<char>> {
    v.map_values(|s: String| s@)
}

/// Writes one decimal digit.
fn digit_char(d: u64) -> (c: char)
    requires
        d < 10,
    ensures
        c == digit(d as nat),
{
    if d == 0 {
        '0'
    } else if d == 1 {
        '1'
    } else if d == 2 {
        '2'
    } else if d == 3 {
        '3'
    } else if d == 4 {
        '4'
    } else if d == 5 {
        '5'
    } else if d == 6 {
        '6'
    } else if d == 7 {
        '7'
    } else if d == 8 {
        '8'
    } else {
        '9'
    }
}

/// Appends the decimal form of `n`.
pub fn push_decimal(out: &mut Vec<char>, n: u64)
    ensures
        final(out)@ == old(out)@ + decimal(n as nat),
    decreases n,
{
    if n >= 10 {
        push_decimal(out, n / 10);
        out.push(digit_char(n % 10));
        assert(old(out)@ + decimal(n as nat) =~= old(out)@ + decimal((n / 10) as nat) + seq![digit((n % 10) as nat)]);
    } else {
        out.push(digit_char(n));
        assert(old(out)@ + decimal(n as nat) =~= old(out)@.push(digit(n as nat)));
    }
}

/// Appends the decimal form of `i`.
pub fn push_int(out: &mut Vec<char>, i: i64)
    ensures
        final(out)@ == old(out)@ + json_int(i as int),
{
    if i < 0 {
        out.push('-');
        let m: i128 = 0 - (i as i128);
        push_decimal(out, m as u64);
        assert(old(out)@ + json_int(i as int) =~= old(out)@.push('-') + decimal((m as u64) as nat));
    } else {
        push_decimal(out, i as u64);
    }
}

/// One hex digit.
fn hex_char_of(d: u32) -> (c: char)
    requires
        d < 16,
    ensures
        c == hex_char(d as nat),
{
    if d < 10 {
        digit_char(d as u64)
    } else if d == 10 {
        'a'
    } else if d == 11 {
        'b'
    } else if d == 12 {
        'c'
    } else if d == 13 {
        'd'
    } else if d == 14 {
        'e'
    } else {
        'f'
    }
}

/// Appends the escaped form of one character.
fn push_escaped_char(out: &mut Vec<char>, c: char)
    ensures
        final(out)@ == old(out)@ + escape_char(c),
{
    let v = c as u32;
    if c == '"' {
        out.push('\\');
        out.push('"');
    } else if c == '\\' {
        out.push('\\');
        out.push('\\');
    } else if c == '\n' {
        out.push('\\');
        out.push('n');
    } else if c == '\r' {
        out.push('\\');
        out.push('r');
    } else if c == '\t' {
        out.push('\\');
        out.push('t');
    } else if v == 8 {
        out.push('\\');
        out.push('b');
    } else if v == 12 {
        out.push('\\');
        out.push('f');
    } else if v < 0x20 {
        out.push('\\');
        out.push('u');
        out.push('0');
        out.push('0');
        out.push(hex_char_of(v / 16));
        out.push(hex_char_of(v % 16));
    } else {
        out.push(c);
    }
    assert(final(out)@ =~= old(out)@ + escape_char(c));
}

/// Appends a JSON string literal holding `s`.
pub fn push_json_str(out: &mut Vec<char>, s: &Vec<char>)
    ensures
        final(out)@ == old(out)@ + json_str(s@),
{
    let ghost start = out@;
    out.push('"');
    assert(s@.take(0) =~= Seq::<char>::empty());
    for i in 0..s.len()
        invariant
            out@ == start + seq!['"'] + escape(s@.take(i as int)),
    {
        proof {
            lemma_take_push(s@, i as int);
            assert(s@.take(i + 1).drop_last() =~= s@.take(i as int));
        }
        push_escaped_char(out, s[i]);
    }
    out.push('"');
    assert(s@.take(s@.len() as int) =~= s@);
    assert(out@ =~= start + json_str(s@));
}

/// Appends a JSON string literal holding the characters of a `String`.
pub fn push_json_string(out: &mut Vec<char>, s: &String)
    ensures
        final(out)@ == old(out)@ + json_str(s@),
{
    let v = chars_of(s.as_str());
    push_json_str(out, &v);
}

/// Appends a JSON string literal holding the characters of a string slice.
pub fn push_json_lit(out: &mut Vec<char>, s: &str)
    ensures
        final(out)@ == old(out)@ + json_str(s@),
{
    let v = chars_of(s);
    push_json_str(out, &v);
}

/// Appends an object key and its colon.
pub fn push_key(out: &mut Vec<char>, k: &str)
    ensures
        final(out)@ == old(out)@ + key(k@),
{
    let ghost start = out@;
    push_json_lit(out, k);
    out.push(':');
    assert(out@ =~= start + key(k@));
}

/// Appends `null` or the string.
pub fn push_opt_string(out: &mut Vec<char>, o: &Option<String>)
    ensures
        final(out)@ == old(out)@ + json_opt_str(opt_view(*o)),
{
    match o {
        Some(s) => push_json_string(out, s),
        None => push_str(out, "null"),
    }
}

/// Appends `null` or the integer.
pub fn push_opt_int(out: &mut Vec<char>, o: Option<i64>)
    ensures
        final(out)@ == old(out)@ + json_opt_int(opt_int(o)),
{
    match o {
        Some(i) => push_int(out, i),
        None => push_str(out, "null"),
    }
}

/// Appends `true` or `false`.
pub fn push_bool(out: &mut Vec<char>, b: bool)
    ensures
        final(out)@ == old(out)@ + json_bool(b),
{
    if b {
        push_str(out, "true");
    } else {
        push_str(out, "false");
    }
}

/// Appends a JSON array of strings.
pub fn push_str_array(out: &mut Vec<char>, v: &Vec<String>)
    ensures
        final(out)@ == old(out)@ + json_str_array(str_views(v@)),
{
    let ghost start = out@;
    let ghost items = str_views(v@).map_values(|s: Seq<char>| json_str(s));
    out.push('[');
    for i in 0..v.len()
        invariant
            items == str_views(v@).map_values(|s: Seq<char>| json_str(s)),
            out@ == start + seq!['['] + join(items.take(i as int), seq![',']),
    {
        proof {
            assert(items.take(i + 1) =~= items.take(i as int).push(items[i as int]));
            lemma_join_push(items.take(i as int), seq![','], items[i as int]);
        }
        if i > 0 {
            out.push(',');
        }
        push_json_string(out, &v[i]);
    }
    out.push(']');
    assert(items.take(v@.len() as int) =~= items);
    assert(out@ =~= start + json_str_array(str_views(v@)));
}

/// Joins encoded items into a JSON array.
pub fn push_array(out: &mut Vec<char>, items: &Vec<Vec<char>>)
    ensures
        final(out)@ == old(out)@ + json_array(views(items@)),
{
    let ghost start = out@;
    out.push('[');
    for i in 0..items.len()
        invariant
            out@ == start + seq!['['] + join(views(items@.take(i as int)), seq![',']),
    {
        proof {
            assert(views(items@.take(i + 1)) =~= views(items@.take(i as int)).push(items@[i as int]@));
            lemma_join_push(views(items@.take(i as int)), seq![','], items@[i as int]@);
        }
        if i > 0 {
            out.push(',');
        }
        push_all(out, &items[i]);
    }
    out.push(']');
    assert(items@.take(items@.len() as int) =~= items@);
    assert(out@ =~= start + json_array(views(items@)));
}

/// A record with a JSON text form.
pub trait JsonRecord: Sized {
    /// The JSON text of the record.
    spec fn json_view(&self) -> Seq<char>;

    /// Writes the JSON text of the record.
    fn to_json(&self) -> (r: Vec<char>)
        ensures
            r@ == self.json_view(),
    ;
}

/// The JSON texts of a sequence of records.
pub open spec fn json_views<T: JsonRecord>(v: Seq<T>) -> Seq<Seq<char>> {
    v.map_values(|x: T| x.json_view())
}

/// The JSON array of a vector of records.
pub fn json_array_of<T: JsonRecord>(v: &[T]) -> (r: Vec<char>)
    ensures
        r@ == json_array(json_views(v@)),
{
    let ghost items = json_views(v@);
    let mut out: Vec<char> = Vec::new();
    out.push('[');
    for i in 0..v.len()
        invariant
            items == json_views(v@),
            out@ == seq!['['] + join(items.take(i as int), seq![',']),
    {
        proof {
            assert(items.take(i + 1) =~= items.take(i as int).push(items[i as int]));
            lemma_join_push(items.take(i as int), seq![','], items[i as int]);
        }
        if i > 0 {
            out.push(',');
        }
        let j = v[i].to_json();
        push_all(&mut out, &j);
    }
    out.push(']');
    assert(items.take(v@.len() as int) =~= items);
    assert(out@ =~= json_array(items));
    out
}

/// Appends `null` or the number.
pub fn push_opt_u16(out: &mut Vec<char>, o: Option<u16>)
    ensures
        final(out)@ == old(out)@ + json_opt_int(opt_u16(o)),
{
    match o {
        Some(i) => push_decimal(out, i as u64),
        None => push_str(out, "null"),
    }
}

/// An optional `u16` as a mathematical integer.
pub open spec fn opt_u16(o: Option<u16>) -> Option<int> {
    match o {
        Some(i) => Some(i as int),
        None => None,
    }
}

/// A copy of a vector of strings.
pub fn copy_strings(v: &Vec<String>) -> (r: Vec<String>)
    ensures
        str_views(r@) == str_views(v@),
{
    let mut r: Vec<String> = Vec::new();
    for i in 0..v.len()
        invariant
            str_views(r@) == str_views(v@.take(i as int)),
    {
        let ghost before = r@;
        r.push(v[i].clone());
        assert(str_views(v@.take(i + 1)) =~= str_views(v@.take(i as int)).push(v@[i as int]@));
        assert(str_views(r@) =~= str_views(before).push(v@[i as int]@));
    }
    assert(v@.take(v@.len() as int) =~= v@);
    r
}

/// A copy of an optional string.
pub fn copy_opt_string(o: &Option<String>) -> (r: Option<String>)
    ensures
        opt_view(r) == opt_view(*o),
{
    match o {
        Some(s) => Some(s.clone()),
        None => None,
    }
}

/// An optional machine integer as a mathematical one.
pub open spec fn opt_int(o: Option<i64>) -> Option<int> {
    match o {
        Some(i) => Some(i as int),
        None => None,
    }
}

/// The view of an optional string.
pub open spec fn opt_view(o: Option<String>) -> Option<Seq<char>> {
    match o {
        Some(s) => Some(s@),
        None => None,
    }
}

} // verus!
