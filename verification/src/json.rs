//! JSON values, read and written through `serde_json`.
//!
//! A parsed document is opaque here; what it holds that the engine
//! reads is named, and trusted functions hand those parts out.  Objects
//! and arrays are written out by verified code, which relies on
//! `serde_json` only for string literals.

use vstd::prelude::*;
use crate::text::{concat3, texts};

verus! {

#[verifier::external_type_specification]
#[verifier::external_body]
pub struct ExValue(serde_json::Value);

/// The lower-case hexadecimal digit for a number below sixteen.
pub open spec fn hex_digit(n: int) -> char {
    "0123456789abcdef"@[n]
}

/// How one character stands inside a JSON string literal.  The quote and
/// the backslash get a backslash before them; the control characters
/// below the space are written `\b`, `\t`, `\n`, `\f`, `\r`, or, for the
/// others, `\u00` and two hexadecimal digits; every other character
/// stands for itself.
pub open spec fn escaped_char(c: char) -> Seq<char> {
    if c == '"' {
        seq!['\\', '"']
    } else if c == '\\' {
        seq!['\\', '\\']
    } else if c == '\u{8}' {
        seq!['\\', 'b']
    } else if c == '\t' {
        seq!['\\', 't']
    } else if c == '\n' {
        seq!['\\', 'n']
    } else if c == '\u{c}' {
        seq!['\\', 'f']
    } else if c == '\r' {
        seq!['\\', 'r']
    } else if (c as int) < 0x20 {
        seq!['\\', 'u', '0', '0', hex_digit((c as int) / 16), hex_digit((c as int) % 16)]
    } else {
        seq![c]
    }
}

/// A text as it stands inside a JSON string literal.
pub open spec fn escaped(text: Seq<char>) -> Seq<char>
    decreases text.len(),
{
    if text.len() == 0 {
        Seq::empty()
    } else {
        escaped(text.drop_last()) + escaped_char(text.last())
    }
}

/// The JSON string literal of a text: the text between quotes, with its
/// characters escaped.
pub open spec fn json_string_literal(text: Seq<char>) -> Seq<char> {
    seq!['"'] + escaped(text) + seq!['"']
}

/// Whether a character stands for itself inside a JSON string literal.
pub open spec fn plain_char(c: char) -> bool {
    c != '"' && c != '\\' && (c as int) >= 0x20
}

/// A text of plain characters stands inside a literal as it is, so its
/// literal is the text between quotes.
pub proof fn lemma_plain_literal(text: Seq<char>)
    requires
        forall|i: int| 0 <= i < text.len() ==> plain_char(#[trigger] text[i]),
    ensures
        escaped(text) == text,
        json_string_literal(text) == seq!['"'] + text + seq!['"'],
    decreases text.len(),
{
    if text.len() > 0 {
        lemma_plain_literal(text.drop_last());
        assert(plain_char(text.last()));
        assert(escaped_char(text.last()) == seq![text.last()]);
        assert(text.drop_last() + seq![text.last()] =~= text);
    }
}

/// A JSON value, as far as the engine reads one.
pub enum JsonTree {
    /// A string, with its text.
    Text(Seq<char>),
    /// A boolean.
    Flag(bool),
    /// An array, with its elements in order.
    List(Seq<JsonTree>),
    /// An object, with its members by name.
    Object(Map<Seq<char>, JsonTree>),
    /// Null or a number.
    Other,
}

/// What a parsed JSON value holds.
pub uninterp spec fn json_tree(value: serde_json::Value) -> JsonTree;

/// What reading a text as JSON comes to: the value that the text holds,
/// or nothing where the text is not well-formed JSON.
pub uninterp spec fn json_reading(text: Seq<char>) -> Option<JsonTree>;

/// An optional value as what it holds.
pub open spec fn tree_view(value: Option<serde_json::Value>) -> Option<JsonTree> {
    match value {
        Some(v) => Some(json_tree(v)),
        None => None,
    }
}

/// An optional list of values as what they hold.
pub open spec fn trees_view(values: Option<Vec<serde_json::Value>>) -> Option<Seq<JsonTree>> {
    match values {
        Some(items) => Some(items@.map_values(|item: serde_json::Value| json_tree(item))),
        None => None,
    }
}

/// An optional string as plain text.
pub open spec fn text_view(text: Option<String>) -> Option<Seq<char>> {
    match text {
        Some(t) => Some(t@),
        None => None,
    }
}

/// The member of the given name, where the value is an object that has one.
pub open spec fn spec_member(tree: JsonTree, key: Seq<char>) -> Option<JsonTree> {
    match tree {
        JsonTree::Object(members) => if members.dom().contains(key) {
            Some(members[key])
        } else {
            None
        },
        _ => None,
    }
}

/// The text of a value that is a string.
pub open spec fn spec_text(tree: JsonTree) -> Option<Seq<char>> {
    match tree {
        JsonTree::Text(text) => Some(text),
        _ => None,
    }
}

/// The truth value of a value that is a boolean.
pub open spec fn spec_flag(tree: JsonTree) -> Option<bool> {
    match tree {
        JsonTree::Flag(flag) => Some(flag),
        _ => None,
    }
}

/// The elements of a value that is an array.
pub open spec fn spec_items(tree: JsonTree) -> Option<Seq<JsonTree>> {
    match tree {
        JsonTree::List(items) => Some(items),
        _ => None,
    }
}

/// `serde_json::from_str`: the value that `text` holds, where it is
/// well-formed JSON.
#[verifier::external_body]
pub(crate) fn json_parse(text: &str) -> (parsed: Option<serde_json::Value>)
    ensures
        tree_view(parsed) == json_reading(text@),
{
    serde_json::from_str::<serde_json::Value>(text).ok()
}

/// `Value::get` with a key: a copy of the member of that name, where the
/// value is an object that has one.
#[verifier::external_body]
pub(crate) fn json_member(value: &serde_json::Value, key: &str) -> (member: Option<
    serde_json::Value,
>)
    ensures
        tree_view(member) == spec_member(json_tree(*value), key@),
{
    value.get(key).cloned()
}

/// `Value::as_str`: the text of a value that is a string.
#[verifier::external_body]
pub(crate) fn json_text(value: &serde_json::Value) -> (text: Option<String>)
    ensures
        text_view(text) == spec_text(json_tree(*value)),
{
    value.as_str().map(|text| text.to_string())
}

/// `Value::as_bool`: the truth value of a value that is a boolean.
#[verifier::external_body]
pub(crate) fn json_bool(value: &serde_json::Value) -> (flag: Option<bool>)
    ensures
        flag == spec_flag(json_tree(*value)),
{
    value.as_bool()
}

/// `Value::as_array`: copies of the elements of a value that is an array,
/// in order.
#[verifier::external_body]
pub(crate) fn json_elements(value: &serde_json::Value) -> (elements: Option<
    Vec<serde_json::Value>,
>)
    ensures
        trees_view(elements) == spec_items(json_tree(*value)),
{
    value.as_array().cloned()
}

/// The text of the member of the given name, where the value is an object
/// that has one and the member is a string.
pub open spec fn lookup_text(tree: JsonTree, key: Seq<char>) -> Option<Seq<char>> {
    match spec_member(tree, key) {
        Some(member) => spec_text(member),
        None => None,
    }
}

/// The truth value of the member of the given name, where the value is an
/// object that has one and the member is a boolean.
pub open spec fn lookup_flag(tree: JsonTree, key: Seq<char>) -> Option<bool> {
    match spec_member(tree, key) {
        Some(member) => spec_flag(member),
        None => None,
    }
}

/// The elements of the member of the given name, where the value is an
/// object that has one and the member is an array: of each element its
/// text, where it is a string.
pub open spec fn lookup_list(tree: JsonTree, key: Seq<char>) -> Option<Seq<Option<Seq<char>>>> {
    match spec_member(tree, key) {
        Some(member) => match spec_items(member) {
            Some(items) => Some(items.map_values(|item: JsonTree| spec_text(item))),
            None => None,
        },
        None => None,
    }
}

/// An optional list of optional strings as plain text.
pub open spec fn list_view(list: Option<Vec<Option<String>>>) -> Option<Seq<Option<Seq<char>>>> {
    match list {
        Some(items) => Some(items@.map_values(|item: Option<String>| text_view(item))),
        None => None,
    }
}

/// `serde_json::to_string` of a text: its JSON string literal, the text
/// between quotes and escaped as the compact formatter escapes it.
#[verifier::external_body]
pub(crate) fn json_quote(text: &str) -> (s: String)
    ensures
        s@ == json_string_literal(text@),
{
    serde_json::to_string(text).unwrap_or_default()
}

/// One member of a JSON object: its name, and its value as JSON text.
pub struct Member {
    pub name: String,
    pub value: String,
}

/// The members of a list as pairs of a name and a value, both as plain
/// text.
pub open spec fn member_views(members: Seq<Member>) -> Seq<(Seq<char>, Seq<char>)> {
    members.map_values(|m: Member| (m.name@, m.value@))
}

/// A member whose value is a text, as a pair.
pub open spec fn text_pair(name: Seq<char>, value: Seq<char>) -> (Seq<char>, Seq<char>) {
    (name, json_string_literal(value))
}

/// The members of an object, written out with commas between them.  Each
/// member is a pair of its name and its value; the value is JSON text.
pub open spec fn spec_members(members: Seq<(Seq<char>, Seq<char>)>) -> Seq<char>
    decreases members.len(),
{
    if members.len() == 0 {
        Seq::empty()
    } else {
        let member = json_string_literal(members.last().0) + ":"@ + members.last().1;
        if members.len() == 1 {
            member
        } else {
            spec_members(members.drop_last()) + ","@ + member
        }
    }
}

/// The JSON text of an object with the given members, in their order.
pub open spec fn spec_object(members: Seq<(Seq<char>, Seq<char>)>) -> Seq<char> {
    "{"@ + spec_members(members) + "}"@
}

/// The JSON text of an array with the given elements, each of them JSON
/// text, in their order.
pub open spec fn spec_array(elements: Seq<Seq<char>>) -> Seq<char> {
    "["@ + spec_elements(elements) + "]"@
}

/// The elements of an array, written out with commas between them.
pub open spec fn spec_elements(elements: Seq<Seq<char>>) -> Seq<char>
    decreases elements.len(),
{
    if elements.len() == 0 {
        Seq::empty()
    } else if elements.len() == 1 {
        elements.last()
    } else {
        spec_elements(elements.drop_last()) + ","@ + elements.last()
    }
}

/// The JSON string literals of a list of texts.
pub open spec fn literals(items: Seq<Seq<char>>) -> Seq<Seq<char>> {
    items.map_values(|t: Seq<char>| json_string_literal(t))
}

/// A member whose value is a text.
pub fn text_member(name: &str, value: &str) -> (m: Member)
    ensures
        m.name@ == name@,
        m.value@ == json_string_literal(value@),
{
    Member { name: name.to_owned(), value: json_quote(value) }
}

/// A member whose value is given as JSON text.
pub fn raw_member(name: &str, value: String) -> (m: Member)
    ensures
        m.name@ == name@,
        m.value@ == value@,
{
    Member { name: name.to_owned(), value }
}

/// Writes an object out.
pub fn json_object(members: &Vec<Member>) -> (s: String)
    ensures
        s@ == spec_object(member_views(members@)),
{
    let mut body = String::new();
    let mut i: usize = 0;
    let ghost pairs = member_views(members@);
    assert(pairs.subrange(0, 0) =~= Seq::<(Seq<char>, Seq<char>)>::empty());
    while i < members.len()
        invariant
            i <= members.len(),
            pairs == member_views(members@),
            body@ == spec_members(pairs.subrange(0, i as int)),
        decreases members.len() - i,
    {
        let ghost next = pairs.subrange(0, i as int + 1);
        assert(next.drop_last() =~= pairs.subrange(0, i as int));
        assert(next.last() == (members@[i as int].name@, members@[i as int].value@));
        if i > 0 {
            body.append(",");
        }
        let ghost before = body@;
        body.append(json_quote(members[i].name.as_str()).as_str());
        body.append(":");
        body.append(members[i].value.as_str());
        assert(body@ =~= before + (json_string_literal(members@[i as int].name@) + ":"@
            + members@[i as int].value@));
        i = i + 1;
    }
    assert(pairs.subrange(0, members@.len() as int) =~= pairs);
    concat3("{", body.as_str(), "}")
}

/// Writes an array out.
pub fn json_array(elements: &Vec<String>) -> (s: String)
    ensures
        s@ == spec_array(texts(elements@)),
{
    let mut body = String::new();
    let mut i: usize = 0;
    let ghost items = texts(elements@);
    assert(items.subrange(0, 0) =~= Seq::<Seq<char>>::empty());
    while i < elements.len()
        invariant
            i <= elements.len(),
            items == texts(elements@),
            body@ == spec_elements(items.subrange(0, i as int)),
        decreases elements.len() - i,
    {
        let ghost next = items.subrange(0, i as int + 1);
        assert(next.drop_last() =~= items.subrange(0, i as int));
        assert(next.last() == elements@[i as int]@);
        if i > 0 {
            body.append(",");
        } else {
            assert(body@ + elements@[i as int]@ =~= elements@[i as int]@);
        }
        body.append(elements[i].as_str());
        i = i + 1;
    }
    assert(items.subrange(0, elements@.len() as int) =~= items);
    concat3("[", body.as_str(), "]")
}

/// Writes a list of texts out as an array of JSON strings.
pub fn json_text_array(items: &Vec<String>) -> (s: String)
    ensures
        s@ == spec_array(literals(texts(items@))),
{
    let mut quoted: Vec<String> = Vec::new();
    let mut i: usize = 0;
    while i < items.len()
        invariant
            i <= items.len(),
            texts(quoted@) == literals(texts(items@)).subrange(0, i as int),
        decreases items.len() - i,
    {
        let ghost before = texts(quoted@);
        quoted.push(json_quote(items[i].as_str()));
        assert(texts(quoted@) =~= before.push(json_string_literal(items@[i as int]@)));
        assert(literals(texts(items@)).subrange(0, i as int + 1) =~= literals(
            texts(items@),
        ).subrange(0, i as int).push(json_string_literal(items@[i as int]@)));
        i = i + 1;
    }
    assert(literals(texts(items@)).subrange(0, items@.len() as int) =~= literals(texts(items@)));
    json_array(&quoted)
}

} // verus!
