//! JSON values: the tree that a value is, and what `serde_json` does with it.
use vstd::prelude::*;
use vstd::utf8::*;

verus! {

/// `serde_json::Value`, a JSON tree.
#[verifier::external_type_specification]
#[verifier::external_body]
pub struct ExValue(serde_json::Value);

/// `serde_json::Number`, a JSON number that is only carried through.
#[verifier::external_type_specification]
#[verifier::external_body]
pub struct ExNumber(serde_json::Number);

/// `serde_json::Map`, the collection that holds the members of a JSON object.
#[verifier::external_type_specification]
#[verifier::external_body]
#[verifier::reject_recursive_types(K)]
#[verifier::reject_recursive_types(V)]
pub struct ExMap<K, V>(serde_json::Map<K, V>);

/// `serde_json::Error`, the refusal of an encoding or a decoding.
#[verifier::external_type_specification]
#[verifier::external_body]
pub struct ExError(serde_json::Error);

/// A JSON value as a mathematical tree.
pub enum JsonView {
    Null,
    Bool(bool),
    Number(serde_json::Number),
    Text(Seq<char>),
    Array(Seq<JsonView>),
    Object(Map<Seq<char>, JsonView>),
}

/// What a `serde_json::Value` holds.
pub uninterp spec fn value_tree(value: serde_json::Value) -> JsonView;

/// What a `serde_json::Map` holds, each value by its tree.
pub uninterp spec fn map_members(
    members: serde_json::Map<String, serde_json::Value>,
) -> Map<Seq<char>, JsonView>;

/// The text that a `serde_json::Error` displays.
pub uninterp spec fn error_text(error: serde_json::Error) -> Seq<char>;

/// The bytes that `serde_json::to_vec` makes of a tree.
pub uninterp spec fn json_encoding(tree: JsonView) -> Seq<u8>;

/// What `serde_json::from_slice` makes of bytes: a tree, or the text of the error.
pub uninterp spec fn json_decoding(bytes: Seq<u8>) -> Result<JsonView, Seq<char>>;

/// The text that a `serde_json::Value` displays.
pub uninterp spec fn json_display(tree: JsonView) -> Seq<char>;

/// A JSON value with its outermost level open: a scalar as a plain value, a container with
/// its items as `serde_json` holds them.
pub enum Json {
    Null,
    Bool(bool),
    Number(serde_json::Number),
    Text(String),
    Array(Vec<serde_json::Value>),
    Object(serde_json::Map<String, serde_json::Value>),
}

/// The trees of a list of values.
pub open spec fn value_trees(values: Seq<serde_json::Value>) -> Seq<JsonView> {
    values.map_values(|value: serde_json::Value| value_tree(value))
}

impl View for Json {
    type V = JsonView;

    open spec fn view(&self) -> JsonView {
        match *self {
            Json::Null => JsonView::Null,
            Json::Bool(flag) => JsonView::Bool(flag),
            Json::Number(number) => JsonView::Number(number),
            Json::Text(text) => JsonView::Text(text@),
            Json::Array(items) => JsonView::Array(value_trees(items@)),
            Json::Object(members) => JsonView::Object(map_members(members)),
        }
    }
}

/// The trees of a list of opened values.
pub open spec fn trees(values: Seq<Json>) -> Seq<JsonView> {
    values.map_values(|value: Json| value@)
}

/// Reads the variant of a `serde_json::Value`; the fields stay as they are, so the tree does.
#[verifier::external_body]
fn open_value(value: serde_json::Value) -> (json: Json)
    ensures
        json@ == value_tree(value),
{
    match value {
        serde_json::Value::Null => Json::Null,
        serde_json::Value::Bool(flag) => Json::Bool(flag),
        serde_json::Value::Number(number) => Json::Number(number),
        serde_json::Value::String(text) => Json::Text(text),
        serde_json::Value::Array(items) => Json::Array(items),
        serde_json::Value::Object(members) => Json::Object(members),
    }
}

/// Builds the `serde_json::Value` variant of an opened value; the tree stays as it is.
#[verifier::external_body]
fn close_value(json: Json) -> (value: serde_json::Value)
    ensures
        value_tree(value) == json@,
{
    match json {
        Json::Null => serde_json::Value::Null,
        Json::Bool(flag) => serde_json::Value::Bool(flag),
        Json::Number(number) => serde_json::Value::Number(number),
        Json::Text(text) => serde_json::Value::String(text),
        Json::Array(items) => serde_json::Value::Array(items),
        Json::Object(members) => serde_json::Value::Object(members),
    }
}

/// The members of an empty object.
pub open spec fn no_members() -> Map<Seq<char>, JsonView> {
    Map::empty()
}

/// `serde_json::Map::new`: a map without members.
#[verifier::external_body]
pub(crate) fn new_map() -> (members: serde_json::Map<String, serde_json::Value>)
    ensures
        map_members(members) == no_members(),
{
    serde_json::Map::new()
}

/// `serde_json::Map::insert`: the key maps to the value from then on, whether it was there
/// before or not, and no other member changes.
#[verifier::external_body]
fn insert_value(
    members: &mut serde_json::Map<String, serde_json::Value>,
    key: String,
    value: serde_json::Value,
)
    ensures
        map_members(*final(members)) == map_members(*old(members)).insert(key@, value_tree(value)),
{
    members.insert(key, value);
}

/// `serde_json::to_vec` on a value: its bytes are named by the tree of the value. A
/// `serde_json::Map` keeps its members sorted by key, so the bytes do not depend on the order in
/// which they were inserted. The keys of a value are strings and a vector takes every write, so
/// it never fails.
#[verifier::external_body]
fn value_to_vec(value: &serde_json::Value) -> (encoded: Result<Vec<u8>, serde_json::Error>)
    ensures
        encoded is Ok,
        encoded->Ok_0@ == json_encoding(value_tree(*value)),
{
    serde_json::to_vec(value)
}

/// `serde_json::from_slice` into a value: its result is named by the bytes.
#[verifier::external_body]
fn value_from_slice(bytes: &[u8]) -> (decoded: Result<serde_json::Value, serde_json::Error>)
    ensures
        match decoded {
            Ok(value) => json_decoding(bytes@) == Ok::<JsonView, Seq<char>>(value_tree(value)),
            Err(error) => json_decoding(bytes@) == Err::<JsonView, Seq<char>>(error_text(error)),
        },
{
    serde_json::from_slice(bytes)
}

/// `Display` of a `serde_json::Value`: the text is named by the tree of the value, for the same
/// reason as the bytes.
#[verifier::external_body]
fn value_to_string(value: &serde_json::Value) -> (text: String)
    ensures
        text@ == json_display(value_tree(*value)),
{
    value.to_string()
}

/// `Display` of a `serde_json::Error`: the text is named by the error.
#[verifier::external_body]
fn error_to_string(error: &serde_json::Error) -> (text: String)
    ensures
        text@ == error_text(*error),
{
    error.to_string()
}

/// How one byte of a string is written in JSON: the quote, the backslash and the control
/// characters are escaped, every other byte stands for itself.
pub open spec fn escaped_byte(byte: u8) -> Seq<u8> {
    if byte == '"' as u8 || byte == '\\' as u8 {
        seq!['\\' as u8, byte]
    } else if byte == 8 {
        seq!['\\' as u8, 'b' as u8]
    } else if byte == 9 {
        seq!['\\' as u8, 't' as u8]
    } else if byte == 10 {
        seq!['\\' as u8, 'n' as u8]
    } else if byte == 12 {
        seq!['\\' as u8, 'f' as u8]
    } else if byte == 13 {
        seq!['\\' as u8, 'r' as u8]
    } else if byte < 32 {
        let low = byte as int % 16;
        let digit = if low < 10 { low + '0' as int } else { low - 10 + 'a' as int };
        let high = byte as int / 16 + '0' as int;
        seq!['\\' as u8, 'u' as u8, '0' as u8, '0' as u8, high as u8, digit as u8]
    } else {
        seq![byte]
    }
}

/// The bytes of a string between the quotes of its JSON text.
pub open spec fn escaped(bytes: Seq<u8>) -> Seq<u8>
    decreases bytes.len(),
{
    if bytes.len() == 0 {
        bytes
    } else {
        escaped_byte(bytes[0]) + escaped(bytes.skip(1))
    }
}

/// The JSON text of a string.
pub open spec fn json_string(text: Seq<char>) -> Seq<u8> {
    seq!['"' as u8] + escaped(encode_utf8(text)) + seq!['"' as u8]
}

/// `serde_json::to_vec` on a string: the string between quotes, with the quote, the backslash
/// and the control characters escaped. Writing a string to a vector never fails.
#[verifier::external_body]
fn text_to_vec(text: &str) -> (encoded: Result<Vec<u8>, serde_json::Error>)
    ensures
        encoded is Ok,
        encoded->Ok_0@ == json_string(text@),
{
    serde_json::to_vec(text)
}

impl Json {
    /// Opens a `serde_json::Value`.
    pub fn from_value(value: serde_json::Value) -> (json: Json)
        ensures
            json@ == value_tree(value),
    {
        open_value(value)
    }

    /// The `serde_json::Value` of the same tree.
    pub fn into_value(self) -> (value: serde_json::Value)
        ensures
            value_tree(value) == self@,
    {
        close_value(self)
    }
}

/// Sets a member of an object.
pub fn set_member(
    members: &mut serde_json::Map<String, serde_json::Value>,
    key: String,
    json: Json,
)
    ensures
        map_members(*final(members)) == map_members(*old(members)).insert(key@, json@),
{
    insert_value(members, key, close_value(json));
}

/// The JSON array of a list of values.
pub fn array_of(values: Vec<Json>) -> (array: Json)
    ensures
        array@ == JsonView::Array(trees(values@)),
{
    let ghost all = values@;
    let mut items: Vec<serde_json::Value> = Vec::new();
    for value in iter: values.into_iter()
        invariant
            iter.seq() == all,
            value_trees(items@) == trees(all).take(iter.index() as int),
    {
        let ghost before = items@;
        items.push(close_value(value));
        assert(value_trees(items@) == value_trees(before).push(value@));
    }
    assert(value_trees(items@) == trees(all));
    Json::Array(items)
}

/// Writes a JSON value as bytes, which always succeeds; an error would be the text of a refusal.
pub fn encode(json: Json) -> (encoded: Result<Vec<u8>, String>)
    ensures
        encoded is Ok,
        encoded->Ok_0@ == json_encoding(json@),
{
    match value_to_vec(&close_value(json)) {
        Ok(bytes) => Ok(bytes),
        Err(error) => Err(error_to_string(&error)),
    }
}

/// Reads bytes as a JSON value; the error is the text of the refusal.
pub fn decode(bytes: &[u8]) -> (decoded: Result<Json, String>)
    ensures
        match decoded {
            Ok(json) => json_decoding(bytes@) == Ok::<JsonView, Seq<char>>(json@),
            Err(message) => json_decoding(bytes@) == Err::<JsonView, Seq<char>>(message@),
        },
{
    match value_from_slice(bytes) {
        Ok(value) => Ok(open_value(value)),
        Err(error) => Err(error_to_string(&error)),
    }
}

/// The compact text of a JSON value.
pub fn display(json: Json) -> (text: String)
    ensures
        text@ == json_display(json@),
{
    value_to_string(&close_value(json))
}

/// The JSON text of a string.
pub fn encode_text(text: &str) -> (bytes: Vec<u8>)
    ensures
        bytes@ == json_string(text@),
{
    match text_to_vec(text) {
        Ok(bytes) => bytes,
        Err(_) => {
            assert(false);
            Vec::new()
        },
    }
}

/// The tree of a value shows the value itself: a scalar as it is, an array item by item in order,
/// an object with its members.
pub proof fn trees_show_their_values(
    flag: bool,
    number: serde_json::Number,
    text: String,
    items: Vec<serde_json::Value>,
    members: serde_json::Map<String, serde_json::Value>,
)
    ensures
        Json::Null@ == JsonView::Null,
        Json::Bool(flag)@ == JsonView::Bool(flag),
        Json::Number(number)@ == JsonView::Number(number),
        Json::Text(text)@ == JsonView::Text(text@),
        Json::Object(members)@ == JsonView::Object(map_members(members)),
        Json::Array(items)@ is Array,
        Json::Array(items)@->Array_0.len() == items.len(),
        forall|i: int|
            0 <= i < items.len() ==> #[trigger] Json::Array(items)@->Array_0[i] == value_tree(
                items[i],
            ),
{
}

/// The trees of a list of values are those of each value, in order; an empty object has no
/// members.
pub proof fn trees_are_those_of_each_value(values: Seq<Json>)
    ensures
        trees(values).len() == values.len(),
        forall|i: int| 0 <= i < values.len() ==> #[trigger] trees(values)[i] == values[i]@,
        forall|key: Seq<char>| !(#[trigger] no_members().dom().contains(key)),
{
}

/// The JSON text of a string is its UTF-8 bytes in order between two quotes. Only the quote, the
/// backslash and the bytes below 32 are written otherwise, each as its own escape.
pub proof fn strings_are_written_byte_by_byte(text: Seq<char>, byte: u8, bytes: Seq<u8>)
    ensures
        json_string(text) == seq!['"' as u8] + escaped(encode_utf8(text)) + seq!['"' as u8],
        escaped(Seq::<u8>::empty()) == Seq::<u8>::empty(),
        escaped(seq![byte] + bytes) == escaped_byte(byte) + escaped(bytes),
        byte >= 32 && byte != '"' as u8 && byte != '\\' as u8 ==> escaped_byte(byte) == seq![byte],
        byte == '"' as u8 || byte == '\\' as u8 ==> escaped_byte(byte) == seq!['\\' as u8, byte],
        escaped_byte(8) == seq!['\\' as u8, 'b' as u8],
        escaped_byte(9) == seq!['\\' as u8, 't' as u8],
        escaped_byte(10) == seq!['\\' as u8, 'n' as u8],
        escaped_byte(12) == seq!['\\' as u8, 'f' as u8],
        escaped_byte(13) == seq!['\\' as u8, 'r' as u8],
        byte < 32 && byte != 8 && byte != 9 && byte != 10 && byte != 12 && byte != 13
            ==> escaped_byte(byte) == seq![
            '\\' as u8,
            'u' as u8,
            '0' as u8,
            '0' as u8,
            "01"@[byte as int / 16] as u8,
            "0123456789abcdef"@[byte as int % 16] as u8,
        ],
{
    reveal_strlit("01");
    reveal_strlit("0123456789abcdef");
    assert((seq![byte] + bytes).skip(1) == bytes);
}

} // verus!
