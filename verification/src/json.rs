//! The JSON text that the server writes and the members it reads from a client
//! message. Strings are encoded by `serde_json`; objects and arrays are framed
//! here.

use vstd::prelude::*;

verus! {

broadcast use vstd::seq_lib::group_seq_properties;

/// A lowercase hexadecimal digit.
pub open spec fn hex_digit(d: int) -> char {
    if d == 0 {
        '0'
    } else if d == 1 {
        '1'
    } else if d == 2 {
        '2'
    } else if d == 3 {
        '3'
    } else if d == 4 {
        '4'
    } else if d == 5 {
        '5'
    } else if d == 6 {
        '6'
    } else if d == 7 {
        '7'
    } else if d == 8 {
        '8'
    } else if d == 9 {
        '9'
    } else if d == 10 {
        'a'
    } else if d == 11 {
        'b'
    } else if d == 12 {
        'c'
    } else if d == 13 {
        'd'
    } else if d == 14 {
        'e'
    } else {
        'f'
    }
}

/// How one character is written inside a JSON string: a quote and a
/// backslash get a backslash before them, the control characters with a short
/// escape get it, the other control characters become `\u00` and two lowercase
/// hexadecimal digits, and every other character stands as it is.
pub open spec fn escaped_char(c: char) -> Seq<char> {
    if c == '"' {
        seq!['\\', '"']
    } else if c == '\\' {
        seq!['\\', '\\']
    } else if c == '\x08' {
        seq!['\\', 'b']
    } else if c == '\t' {
        seq!['\\', 't']
    } else if c == '\n' {
        seq!['\\', 'n']
    } else if c == '\x0c' {
        seq!['\\', 'f']
    } else if c == '\r' {
        seq!['\\', 'r']
    } else if (c as int) < 0x20 {
        seq!['\\', 'u', '0', '0', hex_digit((c as int) / 16), hex_digit((c as int) % 16)]
    } else {
        seq![c]
    }
}

/// The characters of `s`, each written as inside a JSON string.
pub open spec fn escaped_text(s: Seq<char>) -> Seq<char>
    decreases s.len(),
{
    if s.len() == 0 {
        Seq::empty()
    } else {
        escaped_char(s[0]) + escaped_text(s.drop_first())
    }
}

/// The JSON string literal of `s`: the escaped characters between quotes.
pub open spec fn json_string_literal(s: Seq<char>) -> Seq<char> {
    seq!['"'] + escaped_text(s) + seq!['"']
}

/// Calls `serde_json::to_string` on a `str`. The contract claims that the
/// result is the JSON string literal of `s` as serde_json's compact formatter
/// writes it (its escape table and `\u00xx` form with lowercase digits), and
/// that the call succeeds: serializing a string into memory cannot fail, so
/// the error arm is never taken.
#[verifier::external_body]
fn serde_string(s: &str) -> (r: String)
    ensures
        r@ == json_string_literal(s@),
{
    match serde_json::to_string(s) {
        Ok(t) => t,
        Err(_) => String::new(),
    }
}

/// The JSON string literal of `s`.
pub fn quote(s: &str) -> (r: String)
    ensures
        r@ == json_string_literal(s@),
{
    serde_string(s)
}

/// One member of an object: the key's string literal, a colon, and the
/// value's JSON text.
pub open spec fn object_member_text(field: (Seq<char>, Seq<char>)) -> Seq<char> {
    json_string_literal(field.0) + seq![':'] + field.1
}

/// The members of an object, in order, separated by commas.
pub open spec fn members_text(fields: Seq<(Seq<char>, Seq<char>)>) -> Seq<char>
    decreases fields.len(),
{
    if fields.len() == 0 {
        Seq::empty()
    } else if fields.len() == 1 {
        object_member_text(fields[0])
    } else {
        members_text(fields.drop_last()) + seq![','] + object_member_text(fields.last())
    }
}

/// A compact JSON object with the given keys and value texts, in order: what
/// `serde_json` writes for a struct with these fields.
pub open spec fn object_text(fields: Seq<(Seq<char>, Seq<char>)>) -> Seq<char> {
    seq!['{'] + members_text(fields) + seq!['}']
}

/// The JSON texts of the items, in order, separated by commas.
pub open spec fn items_text(items: Seq<Seq<char>>) -> Seq<char>
    decreases items.len(),
{
    if items.len() == 0 {
        Seq::empty()
    } else if items.len() == 1 {
        items[0]
    } else {
        items_text(items.drop_last()) + seq![','] + items.last()
    }
}

/// A compact JSON array of the given item texts: what `serde_json` writes for
/// a sequence.
pub open spec fn array_text(items: Seq<Seq<char>>) -> Seq<char> {
    seq!['['] + items_text(items) + seq![']']
}

/// The keys and value texts of `fields`, as mathematical values.
pub open spec fn fields_view(fields: Seq<(String, String)>) -> Seq<(Seq<char>, Seq<char>)> {
    fields.map_values(|f: (String, String)| (f.0@, f.1@))
}

/// The texts of `items`, as mathematical values.
pub open spec fn texts_view(items: Seq<String>) -> Seq<Seq<char>> {
    items.map_values(|t: String| t@)
}

/// A JSON string value: the literal of `value`.
pub open spec fn string_field(key: Seq<char>, value: Seq<char>) -> (Seq<char>, Seq<char>) {
    (key, json_string_literal(value))
}

/// Writes a compact JSON object whose members are `fields`: each a key and
/// the JSON text of its value.
pub fn object(fields: &Vec<(String, String)>) -> (r: String)
    ensures
        r@ == object_text(fields_view(fields@)),
{
    let mut r = "{".to_owned();
    let ghost fv = fields_view(fields@);
    proof {
        reveal_strlit("{");
        assert(fv.take(0) =~= Seq::<(Seq<char>, Seq<char>)>::empty());
    }
    for i in 0..fields.len()
        invariant
            fv == fields_view(fields@),
            r@ == seq!['{'] + members_text(fv.take(i as int)),
    {
        if i > 0 {
            r.append(",");
        }
        let key = quote(fields[i].0.as_str());
        r.append(key.as_str());
        r.append(":");
        r.append(fields[i].1.as_str());
        proof {
            reveal_strlit(",");
            reveal_strlit(":");
            assert(fv.take(i + 1).drop_last() =~= fv.take(i as int));
            assert(fv.take(i + 1).last() == fv[i as int]);
        }
    }
    r.append("}");
    proof {
        reveal_strlit("{");
        reveal_strlit("}");
        assert(fv.take(fields@.len() as int) =~= fv);
    }
    r
}

/// Writes a compact JSON array of the item texts.
pub fn array(items: &Vec<String>) -> (r: String)
    ensures
        r@ == array_text(texts_view(items@)),
{
    let mut r = "[".to_owned();
    let ghost tv = texts_view(items@);
    proof {
        reveal_strlit("[");
        assert(tv.take(0) =~= Seq::<Seq<char>>::empty());
    }
    for i in 0..items.len()
        invariant
            tv == texts_view(items@),
            r@ == seq!['['] + items_text(tv.take(i as int)),
    {
        if i > 0 {
            r.append(",");
        }
        r.append(items[i].as_str());
        proof {
            reveal_strlit(",");
            assert(tv.take(i + 1).drop_last() =~= tv.take(i as int));
            assert(tv.take(i + 1).last() == tv[i as int]);
        }
    }
    r.append("]");
    proof {
        reveal_strlit("[");
        reveal_strlit("]");
        assert(tv.take(items@.len() as int) =~= tv);
    }
    r
}

/// What `serde_json::from_str::<serde_json::Value>(text)` followed by
/// indexing with `key` and `Value::to_string` gives: the compact JSON text of
/// the member (`null` when there is no such member); nothing when `text` is
/// not JSON.
pub uninterp spec fn json_member_text(text: Seq<char>, key: Seq<char>) -> Option<Seq<char>>;

/// What `serde_json::from_str::<serde_json::Value>(text)` followed by
/// indexing with `key` and `Value::as_str` gives: the member's string when it
/// is one, no string otherwise; nothing when `text` is not JSON.
pub uninterp spec fn json_member_str(text: Seq<char>, key: Seq<char>) -> Option<Option<Seq<char>>>;

/// An optional text as a mathematical value.
pub open spec fn opt_text_view(t: Option<String>) -> Option<Seq<char>> {
    match t {
        Some(s) => Some(s@),
        None => None,
    }
}

/// The member `key` of the JSON value in `text`, as compact JSON text.
/// Calls `serde_json::from_str::<serde_json::Value>`, indexes the value with
/// `key` (serde_json gives `null` for a missing member or a non-object) and
/// writes the member with `to_string`. The contract claims that the result is
/// the named result of these calls on `text` and `key`.
#[verifier::external_body]
pub(crate) fn member_text(text: &str, key: &str) -> (r: Option<String>)
    ensures
        opt_text_view(r) == json_member_text(text@, key@),
{
    match serde_json::from_str::<serde_json::Value>(text) {
        Ok(json) => Some(json[key].to_string()),
        Err(_) => None,
    }
}

/// The member `key` of the JSON value in `text`, if it is a string.
/// Calls `serde_json::from_str::<serde_json::Value>`, indexes the value with
/// `key` and reads the member with `as_str`. The contract claims that the
/// result is the named result of these calls on `text` and `key`.
#[verifier::external_body]
pub(crate) fn member_str(text: &str, key: &str) -> (r: Option<Option<String>>)
    ensures
        match r {
            None => json_member_str(text@, key@) == None::<Option<Seq<char>>>,
            Some(t) => json_member_str(text@, key@) == Some(opt_text_view(t)),
        },
{
    match serde_json::from_str::<serde_json::Value>(text) {
        Ok(json) => Some(match json[key].as_str() {
            Some(s) => Some(s.to_owned()),
            None => None,
        }),
        Err(_) => None,
    }
}

/// A written character never begins with a quote.
proof fn lemma_escaped_char_not_quote(c: char)
    ensures
        escaped_char(c).len() > 0,
        escaped_char(c)[0] != '"',
{
}

/// When two written characters both begin the same text, they are the same
/// character.
proof fn lemma_escaped_char_prefix(c: char, d: char, r: Seq<char>, t: Seq<char>)
    requires
        escaped_char(c) + r == escaped_char(d) + t,
    ensures
        c == d,
        r == t,
{
    let w = escaped_char(c) + r;
    assert(w[0] == escaped_char(c)[0]);
    assert(w[0] == escaped_char(d)[0]);
    if escaped_char(c).len() > 1 {
        assert(w[1] == escaped_char(c)[1]);
        assert(w[1] == escaped_char(d)[1]);
    }
    if escaped_char(c).len() == 6 {
        assert(w[4] == escaped_char(c)[4]);
        assert(w[4] == escaped_char(d)[4]);
        assert(w[5] == escaped_char(c)[5]);
        assert(w[5] == escaped_char(d)[5]);
        assert(c as int == 16 * ((c as int) / 16) + (c as int) % 16);
        assert(d as int == 16 * ((d as int) / 16) + (d as int) % 16);
    }
    assert(c == d);
    let n = escaped_char(c).len();
    assert(r =~= w.subrange(n as int, w.len() as int));
    assert(t =~= w.subrange(n as int, w.len() as int));
}

/// Escaped text followed by a closing quote ends at that quote: what follows
/// it, and the text itself, can be read back.
proof fn lemma_escaped_text_ends_at_quote(a: Seq<char>, x: Seq<char>, b: Seq<char>, y: Seq<char>)
    requires
        escaped_text(a) + seq!['"'] + x == escaped_text(b) + seq!['"'] + y,
    ensures
        a == b,
        x == y,
    decreases a.len(),
{
    let w = escaped_text(a) + seq!['"'] + x;
    if a.len() == 0 {
        assert(w[0] == '"');
        if b.len() > 0 {
            lemma_escaped_char_not_quote(b[0]);
            assert(w[0] == escaped_char(b[0])[0]);
        }
        assert(x =~= w.drop_first());
        assert(y =~= w.drop_first());
    } else {
        if b.len() == 0 {
            lemma_escaped_char_not_quote(a[0]);
            assert(w[0] == escaped_char(a[0])[0]);
        }
        let ra = escaped_text(a.drop_first()) + seq!['"'] + x;
        let rb = escaped_text(b.drop_first()) + seq!['"'] + y;
        assert(w =~= escaped_char(a[0]) + ra);
        assert(w =~= escaped_char(b[0]) + rb);
        lemma_escaped_char_prefix(a[0], b[0], ra, rb);
        lemma_escaped_text_ends_at_quote(a.drop_first(), x, b.drop_first(), y);
        assert(a =~= seq![a[0]] + a.drop_first());
        assert(b =~= seq![b[0]] + b.drop_first());
    }
}

/// A JSON string literal followed by more text can be read back: the string
/// and what follows it are both determined.
pub proof fn lemma_string_literal_reads_back(a: Seq<char>, x: Seq<char>, b: Seq<char>, y: Seq<char>)
    requires
        json_string_literal(a) + x == json_string_literal(b) + y,
    ensures
        a == b,
        x == y,
{
    let w = json_string_literal(a) + x;
    assert(w.drop_first() =~= escaped_text(a) + seq!['"'] + x);
    assert(w.drop_first() =~= escaped_text(b) + seq!['"'] + y);
    lemma_escaped_text_ends_at_quote(a, x, b, y);
}

/// The text of an object of two string members, laid out piece by piece.
proof fn lemma_two_members_layout(k1: Seq<char>, k2: Seq<char>, a: Seq<char>, b: Seq<char>)
    ensures
        object_text(seq![string_field(k1, a), string_field(k2, b)])
            == (seq!['{'] + json_string_literal(k1) + seq![':']) + (json_string_literal(a)
            + ((seq![','] + json_string_literal(k2) + seq![':']) + (json_string_literal(b) + seq!['}']))),
{
    let f = seq![string_field(k1, a), string_field(k2, b)];
    assert(f.drop_last() =~= seq![string_field(k1, a)]);
    assert(members_text(f.drop_last()) == object_member_text(string_field(k1, a)));
    assert(members_text(f) == members_text(f.drop_last()) + seq![','] + object_member_text(string_field(k2, b)));
    assert(object_text(f) =~= (seq!['{'] + json_string_literal(k1) + seq![':']) + (json_string_literal(a)
        + ((seq![','] + json_string_literal(k2) + seq![':']) + (json_string_literal(b) + seq!['}']))));
}

/// Two texts that begin with the same text agree on what follows it.
proof fn lemma_strip_common_prefix(p: Seq<char>, x: Seq<char>, y: Seq<char>)
    requires
        p + x == p + y,
    ensures
        x == y,
{
    let w = p + x;
    assert(x =~= w.subrange(p.len() as int, w.len() as int));
    assert(y =~= w.subrange(p.len() as int, w.len() as int));
}

/// An object of two string members with given keys can be read back: its text
/// determines both strings.
pub proof fn lemma_two_string_members_read_back(k1: Seq<char>, k2: Seq<char>, a1: Seq<char>, b1: Seq<char>, a2: Seq<char>, b2: Seq<char>)
    requires
        object_text(seq![string_field(k1, a1), string_field(k2, b1)])
            == object_text(seq![string_field(k1, a2), string_field(k2, b2)]),
    ensures
        a1 == a2,
        b1 == b2,
{
    lemma_two_members_layout(k1, k2, a1, b1);
    lemma_two_members_layout(k1, k2, a2, b2);
    let head = seq!['{'] + json_string_literal(k1) + seq![':'];
    let mid = seq![','] + json_string_literal(k2) + seq![':'];
    let rest1 = mid + (json_string_literal(b1) + seq!['}']);
    let rest2 = mid + (json_string_literal(b2) + seq!['}']);
    lemma_strip_common_prefix(head, json_string_literal(a1) + rest1, json_string_literal(a2) + rest2);
    lemma_string_literal_reads_back(a1, rest1, a2, rest2);
    lemma_strip_common_prefix(mid, json_string_literal(b1) + seq!['}'], json_string_literal(b2) + seq!['}']);
    lemma_string_literal_reads_back(b1, seq!['}'], b2, seq!['}']);
}

/// The comma that goes before a new item when `n` items come before it.
pub open spec fn separator(n: nat) -> Seq<char> {
    if n == 0 {
        Seq::empty()
    } else {
        seq![',']
    }
}

/// An empty array is `[]`.
pub proof fn lemma_array_empty()
    ensures
        array_text(Seq::<Seq<char>>::empty()) == seq!['[', ']'],
{
    assert(array_text(Seq::<Seq<char>>::empty()) =~= seq!['[', ']']);
}

/// Adding an item at the end of an array writes it, after a comma when items
/// come before it, just before the closing bracket: every item of the array
/// is written, in order.
pub proof fn lemma_array_push(s: Seq<Seq<char>>, x: Seq<char>)
    ensures
        array_text(s.push(x)) == array_text(s).drop_last() + separator(s.len()) + x + seq![']'],
{
    assert(s.push(x).drop_last() =~= s);
    if s.len() == 0 {
        assert(items_text(s) =~= Seq::<char>::empty());
    }
    assert(array_text(s.push(x)) =~= array_text(s).drop_last() + separator(s.len()) + x + seq![']']);
}

/// An object without members is `{}`.
pub proof fn lemma_object_empty()
    ensures
        object_text(Seq::<(Seq<char>, Seq<char>)>::empty()) == seq!['{', '}'],
{
    assert(object_text(Seq::<(Seq<char>, Seq<char>)>::empty()) =~= seq!['{', '}']);
}

/// Adding a member at the end of an object writes its key's literal, a colon
/// and its value, after a comma when members come before it, just before the
/// closing brace.
pub proof fn lemma_object_push(f: Seq<(Seq<char>, Seq<char>)>, key: Seq<char>, value: Seq<char>)
    ensures
        object_text(f.push((key, value))) == object_text(f).drop_last() + separator(f.len())
            + json_string_literal(key) + seq![':'] + value + seq!['}'],
{
    assert(f.push((key, value)).drop_last() =~= f);
    if f.len() == 0 {
        assert(members_text(f) =~= Seq::<char>::empty());
    }
    assert(object_text(f.push((key, value))) =~= object_text(f).drop_last() + separator(f.len())
        + json_string_literal(key) + seq![':'] + value + seq!['}']);
}

/// Two objects of two string members under the same first key but different
/// second keys are never the same text.
pub proof fn lemma_second_key_tells_apart(k1: Seq<char>, k2: Seq<char>, k3: Seq<char>, a: Seq<char>, b: Seq<char>, c: Seq<char>, d: Seq<char>)
    requires
        k2 != k3,
    ensures
        object_text(seq![string_field(k1, a), string_field(k2, b)])
            != object_text(seq![string_field(k1, c), string_field(k3, d)]),
{
    if object_text(seq![string_field(k1, a), string_field(k2, b)])
        == object_text(seq![string_field(k1, c), string_field(k3, d)]) {
        lemma_two_members_layout(k1, k2, a, b);
        lemma_two_members_layout(k1, k3, c, d);
        let head = seq!['{'] + json_string_literal(k1) + seq![':'];
        let rest1 = (seq![','] + json_string_literal(k2) + seq![':']) + (json_string_literal(b) + seq!['}']);
        let rest2 = (seq![','] + json_string_literal(k3) + seq![':']) + (json_string_literal(d) + seq!['}']);
        lemma_strip_common_prefix(head, json_string_literal(a) + rest1, json_string_literal(c) + rest2);
        lemma_string_literal_reads_back(a, rest1, c, rest2);
        let t1 = seq![':'] + (json_string_literal(b) + seq!['}']);
        let t2 = seq![':'] + (json_string_literal(d) + seq!['}']);
        assert(rest1 =~= seq![','] + (json_string_literal(k2) + t1));
        assert(rest2 =~= seq![','] + (json_string_literal(k3) + t2));
        lemma_strip_common_prefix(seq![','], json_string_literal(k2) + t1, json_string_literal(k3) + t2);
        lemma_string_literal_reads_back(k2, t1, k3, t2);
    }
}

} // verus!
