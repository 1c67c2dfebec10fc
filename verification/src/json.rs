//! JSON values as plain data.
//!
//! The text is read by `serde_json`. What it reads is taken apart into
//! [`JsonValue`], which the rest of the library works on.

use crate::text;
use crate::text::{decimal_text, same_text};
use vstd::prelude::*;

verus! {

/// A JSON number.
///
/// Whole numbers are kept as such. Any other number is kept as the shortest
/// decimal text that stands for the same double, so that nothing is rounded on
/// its way through.
#[derive(Debug)]
pub enum JsonNumber {
    /// A whole number from zero on.
    Unsigned(u64),
    /// A whole number, negative as a rule.
    Signed(i64),
    /// Any other number, as decimal text.
    Double(String),
}

/// A JSON value.
#[derive(Debug)]
pub enum JsonValue {
    /// `null`.
    Null,
    /// `true` or `false`.
    Bool(bool),
    /// A number.
    Number(JsonNumber),
    /// A string.
    Text(String),
    /// An array.
    Array(Vec<JsonValue>),
    /// An object, with its fields in the order in which they stand.
    Object(Vec<(String, JsonValue)>),
}

/// What a JSON number is.
#[verifier::ext_equal]
pub enum NumberTree {
    Integer(int),
    Double(Seq<char>),
}

/// What a JSON value is.
#[verifier::ext_equal]
pub enum JsonTree {
    Null,
    Bool(bool),
    Number(NumberTree),
    Text(Seq<char>),
    Array(Seq<JsonTree>),
    Object(Seq<(Seq<char>, JsonTree)>),
}

impl View for JsonNumber {
    type V = NumberTree;

    open spec fn view(&self) -> NumberTree {
        match *self {
            JsonNumber::Unsigned(n) => NumberTree::Integer(n as int),
            JsonNumber::Signed(n) => NumberTree::Integer(n as int),
            JsonNumber::Double(text) => NumberTree::Double(text@),
        }
    }
}

/// The trees of the values of a sequence.
pub open spec fn trees(items: Seq<JsonValue>) -> Seq<JsonTree>
    decreases items,
{
    Seq::new(
        items.len(),
        |i: int|
            if 0 <= i < items.len() {
                tree(items[i])
            } else {
                JsonTree::Null
            },
    )
}

/// The names and trees of the fields of a sequence.
pub open spec fn field_trees(fields: Seq<(String, JsonValue)>) -> Seq<(Seq<char>, JsonTree)>
    decreases fields,
{
    Seq::new(
        fields.len(),
        |i: int|
            if 0 <= i < fields.len() {
                (fields[i].0@, tree(fields[i].1))
            } else {
                (Seq::empty(), JsonTree::Null)
            },
    )
}

/// The tree that a value holds.
pub open spec fn tree(value: JsonValue) -> JsonTree
    decreases value,
{
    match value {
        JsonValue::Null => JsonTree::Null,
        JsonValue::Bool(b) => JsonTree::Bool(b),
        JsonValue::Number(n) => JsonTree::Number(n@),
        JsonValue::Text(s) => JsonTree::Text(s@),
        JsonValue::Array(items) => JsonTree::Array(trees(items@)),
        JsonValue::Object(fields) => JsonTree::Object(field_trees(fields@)),
    }
}

impl View for JsonValue {
    type V = JsonTree;

    open spec fn view(&self) -> JsonTree {
        tree(*self)
    }
}

// ---------------------------------------------------------------------------
// Reading a value
// ---------------------------------------------------------------------------
/// The first field of a name, if there is one.
pub open spec fn first_field(fields: Seq<(Seq<char>, JsonTree)>, name: Seq<char>) -> Option<
    JsonTree,
>
    decreases fields.len(),
{
    if fields.len() == 0 {
        None
    } else if fields[0].0 == name {
        Some(fields[0].1)
    } else {
        first_field(fields.drop_first(), name)
    }
}

/// The field of an object, if the value is an object that has it.
pub open spec fn field_of(value: JsonTree, name: Seq<char>) -> Option<JsonTree> {
    match value {
        JsonTree::Object(fields) => first_field(fields, name),
        _ => None,
    }
}

/// The text of a string.
pub open spec fn text_of(value: JsonTree) -> Option<Seq<char>> {
    match value {
        JsonTree::Text(text) => Some(text),
        _ => None,
    }
}

/// The truth value of a boolean.
pub open spec fn bool_of(value: JsonTree) -> Option<bool> {
    match value {
        JsonTree::Bool(b) => Some(b),
        _ => None,
    }
}

/// The whole number that a value is, where it lies between the bounds.
pub open spec fn integer_of(value: JsonTree, low: int, high: int) -> Option<int> {
    match value {
        JsonTree::Number(NumberTree::Integer(n)) if low <= n <= high => Some(n),
        _ => None,
    }
}

/// The text of a field, or another text where the value has no such field or
/// the field is no string.
pub open spec fn text_field(value: JsonTree, name: Seq<char>, otherwise: Seq<char>) -> Seq<char> {
    match field_of(value, name) {
        Some(JsonTree::Text(text)) => text,
        _ => otherwise,
    }
}

impl JsonNumber {
    /// An exact copy.
    pub fn copied(&self) -> (r: JsonNumber)
        ensures
            r@ == self@,
    {
        match self {
            JsonNumber::Unsigned(n) => JsonNumber::Unsigned(*n),
            JsonNumber::Signed(n) => JsonNumber::Signed(*n),
            JsonNumber::Double(text) => JsonNumber::Double(text.as_str().to_owned()),
        }
    }

    /// The number in decimal.
    pub fn render(&self) -> (r: String)
        ensures
            r@ == rendered_number(self@),
    {
        match self {
            JsonNumber::Unsigned(n) => decimal_text(*n),
            JsonNumber::Signed(n) => {
                if *n >= 0 {
                    decimal_text(*n as u64)
                } else {
                    let mut out = "-".to_owned();
                    let magnitude: u64 = if *n == i64::MIN {
                        0x8000_0000_0000_0000
                    } else {
                        (0 - *n) as u64
                    };
                    out.append(decimal_text(magnitude).as_str());
                    out
                }
            },
            JsonNumber::Double(text) => text.as_str().to_owned(),
        }
    }
}

impl Clone for JsonNumber {
    fn clone(&self) -> (r: Self)
        ensures
            r@ == self@,
    {
        self.copied()
    }
}

impl JsonValue {
    /// The first field of a name, where the value is an object that has one.
    pub fn get(&self, name: &str) -> (r: Option<&JsonValue>)
        ensures
            match r {
                Some(field) => field_of(self@, name@) == Some(field@),
                None => field_of(self@, name@) is None,
            },
    {
        match self {
            JsonValue::Object(fields) => {
                let mut i: usize = 0;
                let ghost all = field_trees(fields@);
                assert(all.skip(0) =~= all);
                while i < fields.len()
                    invariant
                        i <= fields.len(),
                        self@ == JsonTree::Object(all),
                        all == field_trees(fields@),
                        first_field(all, name@) == first_field(all.skip(i as int), name@),
                    decreases fields.len() - i,
                {
                    assert(all.skip(i as int).drop_first() =~= all.skip(i + 1));
                    assert(all.skip(i as int)[0] == all[i as int]);
                    if same_text(fields[i].0.as_str(), name) {
                        return Some(&fields[i].1);
                    }
                    i += 1;
                }
                None
            },
            _ => None,
        }
    }

    /// The text, where the value is a string.
    pub fn as_str(&self) -> (r: Option<&str>)
        ensures
            match r {
                Some(text) => text_of(self@) == Some(text@),
                None => text_of(self@) is None,
            },
    {
        match self {
            JsonValue::Text(text) => Some(text.as_str()),
            _ => None,
        }
    }

    /// The truth value, where the value is a boolean.
    pub fn as_bool(&self) -> (r: Option<bool>)
        ensures
            r == bool_of(self@),
    {
        match self {
            JsonValue::Bool(b) => Some(*b),
            _ => None,
        }
    }

    /// The whole number, where the value is one that fits.
    pub fn as_i64(&self) -> (r: Option<i64>)
        ensures
            match r {
                Some(n) => integer_of(self@, i64::MIN as int, i64::MAX as int) == Some(n as int),
                None => integer_of(self@, i64::MIN as int, i64::MAX as int) is None,
            },
    {
        match self {
            JsonValue::Number(JsonNumber::Unsigned(n)) => {
                if *n <= i64::MAX as u64 {
                    Some(*n as i64)
                } else {
                    None
                }
            },
            JsonValue::Number(JsonNumber::Signed(n)) => Some(*n),
            _ => None,
        }
    }

    /// The whole number, where the value is one that fits and is not negative.
    pub fn as_u64(&self) -> (r: Option<u64>)
        ensures
            match r {
                Some(n) => integer_of(self@, 0, u64::MAX as int) == Some(n as int),
                None => integer_of(self@, 0, u64::MAX as int) is None,
            },
    {
        match self {
            JsonValue::Number(JsonNumber::Unsigned(n)) => Some(*n),
            JsonValue::Number(JsonNumber::Signed(n)) => {
                if *n >= 0 {
                    Some(*n as u64)
                } else {
                    None
                }
            },
            _ => None,
        }
    }

    /// The text of a field, or another text where there is none.
    pub fn text_field<'a>(&'a self, name: &str, otherwise: &'a str) -> (r: &'a str)
        ensures
            r@ == text_field(self@, name@, otherwise@),
    {
        match self.get(name) {
            Some(field) => match field.as_str() {
                Some(text) => text,
                None => otherwise,
            },
            None => otherwise,
        }
    }
}

// ---------------------------------------------------------------------------
// Writing a value
// ---------------------------------------------------------------------------
/// The character of one hexadecimal digit.
pub open spec fn hex_digit(d: int) -> char {
    if d < 10 {
        text::digit(d)
    } else if d == 10 {
        'a'
    } else if d == 11 {
        'b'
    } else if d == 12 {
        'c'
    } else if d == 13 {
        'd'
    } else if d == 14 {
        'e'
    } else {
        'f'
    }
}

/// A character inside the quotes of a JSON string: escaped where it is a quote,
/// a backslash or a control code below the space, and as it is otherwise.
pub open spec fn escaped(c: char) -> Seq<char> {
    let n = c as u32;
    if c == '"' {
        seq!['\\', '"']
    } else if c == '\\' {
        seq!['\\', '\\']
    } else if n == 0x08 {
        seq!['\\', 'b']
    } else if n == 0x09 {
        seq!['\\', 't']
    } else if n == 0x0a {
        seq!['\\', 'n']
    } else if n == 0x0c {
        seq!['\\', 'f']
    } else if n == 0x0d {
        seq!['\\', 'r']
    } else if n < 0x20 {
        seq!['\\', 'u', '0', '0', hex_digit(n as int / 16), hex_digit(n as int % 16)]
    } else {
        seq![c]
    }
}

/// A string as JSON text: its characters, escaped, between quotes.
pub open spec fn quoted(text: Seq<char>) -> Seq<char> {
    seq!['"'] + text::concatenated(text.map_values(|c: char| escaped(c))) + seq!['"']
}

/// A string as JSON text.
///
/// Stands for the `Display` of a `serde_json::Value` that is a string. Claims
/// that it writes the characters between quotes, and escapes the quote, the
/// backslash and the control codes below the space and nothing else.
#[verifier::external_body]
fn quote(text: &str) -> (r: String)
    ensures
        r@ == quoted(text@),
{
    serde_json::Value::from(text).to_string()
}

/// A number as JSON text.
pub open spec fn rendered_number(number: NumberTree) -> Seq<char> {
    match number {
        NumberTree::Integer(n) => if n < 0 {
            "-"@ + text::decimal(-n)
        } else {
            text::decimal(n)
        },
        NumberTree::Double(text) => text,
    }
}

/// The elements of an array, with commas between them.
pub open spec fn rendered_items(items: Seq<JsonTree>) -> Seq<char>
    decreases items,
{
    if items.len() == 0 {
        Seq::empty()
    } else if items.len() == 1 {
        rendered(items[0])
    } else {
        rendered_items(items.drop_last()) + ","@ + rendered(items.last())
    }
}

/// The fields of an object, with commas between them.
pub open spec fn rendered_fields(fields: Seq<(Seq<char>, JsonTree)>) -> Seq<char>
    decreases fields,
{
    if fields.len() == 0 {
        Seq::empty()
    } else if fields.len() == 1 {
        quoted(fields[0].0) + ":"@ + rendered(fields[0].1)
    } else {
        rendered_fields(fields.drop_last()) + ","@ + quoted(fields.last().0) + ":"@ + rendered(
            fields.last().1,
        )
    }
}

/// A value as compact JSON text, without white space.
pub open spec fn rendered(value: JsonTree) -> Seq<char>
    decreases value,
{
    match value {
        JsonTree::Null => "null"@,
        JsonTree::Bool(b) => if b {
            "true"@
        } else {
            "false"@
        },
        JsonTree::Number(n) => rendered_number(n),
        JsonTree::Text(text) => quoted(text),
        JsonTree::Array(items) => "["@ + rendered_items(items) + "]"@,
        JsonTree::Object(fields) => "{"@ + rendered_fields(fields) + "}"@,
    }
}

fn render_items(items: &Vec<JsonValue>) -> (r: String)
    ensures
        r@ == rendered_items(trees(items@)),
    decreases items@, 0int,
{
    let mut out = String::new();
    let mut i: usize = 0;
    let ghost all = trees(items@);
    while i < items.len()
        invariant
            i <= items.len(),
            all == trees(items@),
            out@ == rendered_items(all.take(i as int)),
        decreases items.len() - i,
    {
        let ghost before = all.take(i as int);
        let ghost after = all.take(i + 1);
        if i > 0 {
            out.append(",");
        }
        let item = items[i].render();
        out.append(item.as_str());
        proof {
            assert(after.drop_last() =~= before);
            assert(after.last() == items@[i as int]@);
            if i == 0 {
                assert(out@ =~= rendered(after[0]));
            }
        }
        i += 1;
    }
    assert(all.take(items@.len() as int) =~= all);
    out
}

fn render_fields(fields: &Vec<(String, JsonValue)>) -> (r: String)
    ensures
        r@ == rendered_fields(field_trees(fields@)),
    decreases fields@, 0int,
{
    let mut out = String::new();
    let mut i: usize = 0;
    let ghost all = field_trees(fields@);
    while i < fields.len()
        invariant
            i <= fields.len(),
            all == field_trees(fields@),
            out@ == rendered_fields(all.take(i as int)),
        decreases fields.len() - i,
    {
        let ghost before = all.take(i as int);
        let ghost after = all.take(i + 1);
        if i > 0 {
            out.append(",");
        }
        let name = quote(fields[i].0.as_str());
        out.append(name.as_str());
        out.append(":");
        let value = fields[i].1.render();
        out.append(value.as_str());
        proof {
            assert(after.drop_last() =~= before);
            assert(after.last() == (fields@[i as int].0@, fields@[i as int].1@));
            if i == 0 {
                assert(out@ =~= quoted(after[0].0) + ":"@ + rendered(after[0].1));
            }
        }
        i += 1;
    }
    assert(all.take(fields@.len() as int) =~= all);
    out
}

impl JsonValue {
    /// The value as compact JSON text.
    pub fn render(&self) -> (r: String)
        ensures
            r@ == rendered(self@),
        decreases self, 1int,
    {
        match self {
            JsonValue::Null => "null".to_owned(),
            JsonValue::Bool(b) => {
                if *b {
                    "true".to_owned()
                } else {
                    "false".to_owned()
                }
            },
            JsonValue::Number(n) => n.render(),
            JsonValue::Text(text) => quote(text.as_str()),
            JsonValue::Array(items) => {
                let mut out = "[".to_owned();
                out.append(render_items(items).as_str());
                out.append("]");
                out
            },
            JsonValue::Object(fields) => {
                let mut out = "{".to_owned();
                out.append(render_fields(fields).as_str());
                out.append("}");
                out
            },
        }
    }
}

// ---------------------------------------------------------------------------
// Copying a value
// ---------------------------------------------------------------------------
pub(crate) fn copy_items(items: &Vec<JsonValue>) -> (r: Vec<JsonValue>)
    ensures
        trees(r@) == trees(items@),
    decreases items@, 0int,
{
    let mut out: Vec<JsonValue> = Vec::new();
    let mut i: usize = 0;
    while i < items.len()
        invariant
            i <= items.len(),
            out@.len() == i,
            forall|j: int| 0 <= j < i ==> tree(#[trigger] out@[j]) == tree(items@[j]),
        decreases items.len() - i,
    {
        let copy = items[i].copied();
        out.push(copy);
        i += 1;
    }
    assert(trees(out@) =~= trees(items@));
    out
}

fn copy_fields(fields: &Vec<(String, JsonValue)>) -> (r: Vec<(String, JsonValue)>)
    ensures
        field_trees(r@) == field_trees(fields@),
    decreases fields@, 0int,
{
    let mut out: Vec<(String, JsonValue)> = Vec::new();
    let mut i: usize = 0;
    while i < fields.len()
        invariant
            i <= fields.len(),
            out@.len() == i,
            forall|j: int|
                0 <= j < i ==> (#[trigger] out@[j]).0@ == fields@[j].0@ && tree(out@[j].1) == tree(
                    fields@[j].1,
                ),
        decreases fields.len() - i,
    {
        let copy = fields[i].1.copied();
        out.push((fields[i].0.as_str().to_owned(), copy));
        i += 1;
    }
    assert(field_trees(out@) =~= field_trees(fields@));
    out
}

impl JsonValue {
    /// An exact copy.
    pub fn copied(&self) -> (r: JsonValue)
        ensures
            r@ == self@,
        decreases self, 1int,
    {
        match self {
            JsonValue::Null => JsonValue::Null,
            JsonValue::Bool(b) => JsonValue::Bool(*b),
            JsonValue::Number(n) => JsonValue::Number(n.copied()),
            JsonValue::Text(text) => JsonValue::Text(text.as_str().to_owned()),
            JsonValue::Array(items) => JsonValue::Array(copy_items(items)),
            JsonValue::Object(fields) => JsonValue::Object(copy_fields(fields)),
        }
    }
}

impl Clone for JsonValue {
    fn clone(&self) -> (r: Self)
        ensures
            r@ == self@,
    {
        self.copied()
    }
}

// ---------------------------------------------------------------------------
// Reading text
// ---------------------------------------------------------------------------
/// A value of the JSON library.
#[verifier::external_type_specification]
#[verifier::external_body]
pub struct ExValue(serde_json::Value);

/// A number of the JSON library.
#[verifier::external_type_specification]
#[verifier::external_body]
pub struct ExNumber(serde_json::Number);

/// What `serde_json` reads a text as: the value, or the words in which it says
/// why the text is no JSON.
pub uninterp spec fn parsed(text: Seq<char>) -> Result<JsonTree, Seq<char>>;

/// What a value of the JSON library holds.
pub uninterp spec fn value_tree(value: serde_json::Value) -> JsonTree;

/// What a number of the JSON library is.
pub uninterp spec fn number_tree(number: serde_json::Number) -> NumberTree;

/// Reads a text as JSON.
///
/// Stands for `serde_json::from_str`. What it answers is a function of the
/// text, and is named [`parsed`]; which texts are JSON is not stated.
#[verifier::external_body]
fn parse_text(text: &str) -> (r: Result<serde_json::Value, String>)
    ensures
        match r {
            Ok(value) => parsed(text@) == Ok::<JsonTree, Seq<char>>(value_tree(value)),
            Err(words) => parsed(text@) == Err::<JsonTree, Seq<char>>(words@),
        },
{
    serde_json::from_str::<serde_json::Value>(text).map_err(|e| e.to_string())
}

/// One level of a value of the JSON library.
enum Node {
    Null,
    Bool(bool),
    Number(serde_json::Number),
    Text(String),
    Array(Vec<serde_json::Value>),
    Object(Vec<(String, serde_json::Value)>),
}

/// The value that one level belongs to.
spec fn node_tree(node: Node) -> JsonTree {
    match node {
        Node::Null => JsonTree::Null,
        Node::Bool(b) => JsonTree::Bool(b),
        Node::Number(n) => JsonTree::Number(number_tree(n)),
        Node::Text(text) => JsonTree::Text(text@),
        Node::Array(items) => JsonTree::Array(
            items@.map_values(|item: serde_json::Value| value_tree(item)),
        ),
        Node::Object(fields) => JsonTree::Object(
            fields@.map_values(|field: (String, serde_json::Value)| (field.0@, value_tree(field.1))),
        ),
    }
}

/// Takes a value of the JSON library apart by one level.
///
/// Stands for the variants of `serde_json::Value`: each is what its name says,
/// and holds what it is handed over with. The fields of an object come in the
/// order in which its map is walked.
#[verifier::external_body]
fn take_apart(value: serde_json::Value) -> (node: Node)
    ensures
        node_tree(node) == value_tree(value),
{
    match value {
        serde_json::Value::Null => Node::Null,
        serde_json::Value::Bool(flag) => Node::Bool(flag),
        serde_json::Value::Number(number) => Node::Number(number),
        serde_json::Value::String(text) => Node::Text(text),
        serde_json::Value::Array(items) => Node::Array(items),
        serde_json::Value::Object(fields) => Node::Object(fields.into_iter().collect()),
    }
}

/// `serde_json::Number::as_u64` answers a whole number from zero on, and
/// nothing for a negative one or a double.
pub assume_specification[ serde_json::Number::as_u64 ](number: &serde_json::Number) -> (r: Option<
    u64,
>)
    ensures
        match r {
            Some(n) => number_tree(*number) == NumberTree::Integer(n as int),
            None => match number_tree(*number) {
                NumberTree::Integer(n) => n < 0,
                NumberTree::Double(_) => true,
            },
        },
;

/// `serde_json::Number::as_i64` answers a whole number that fits, and nothing
/// for a larger one or a double.
pub assume_specification[ serde_json::Number::as_i64 ](number: &serde_json::Number) -> (r: Option<
    i64,
>)
    ensures
        match r {
            Some(n) => number_tree(*number) == NumberTree::Integer(n as int),
            None => match number_tree(*number) {
                NumberTree::Integer(n) => n > i64::MAX,
                NumberTree::Double(_) => true,
            },
        },
;

/// The decimal text of a number.
///
/// Stands for the `Display` of `serde_json::Number`. The text of a double is
/// what the double is known by here.
#[verifier::external_body]
fn number_text(number: &serde_json::Number) -> (r: String)
    ensures
        match number_tree(*number) {
            NumberTree::Double(text) => r@ == text,
            NumberTree::Integer(n) => r@ == rendered_number(NumberTree::Integer(n)),
        },
{
    number.to_string()
}

fn number_from(number: serde_json::Number) -> (r: JsonNumber)
    ensures
        r@ == number_tree(number),
{
    match number.as_u64() {
        Some(n) => JsonNumber::Unsigned(n),
        None => match number.as_i64() {
            Some(n) => JsonNumber::Signed(n),
            None => JsonNumber::Double(number_text(&number)),
        },
    }
}

impl JsonValue {
    /// The value that a value of the JSON library holds.
    pub fn from_serde(value: serde_json::Value) -> (r: JsonValue)
        ensures
            r@ == value_tree(value),
        decreases value_tree(value),
    {
        match take_apart(value) {
            Node::Null => JsonValue::Null,
            Node::Bool(b) => JsonValue::Bool(b),
            Node::Number(n) => JsonValue::Number(number_from(n)),
            Node::Text(text) => JsonValue::Text(text),
            Node::Array(items) => {
                let ghost all = items@.map_values(|item: serde_json::Value| value_tree(item));
                let mut out: Vec<JsonValue> = Vec::new();
                for item in it: items
                    invariant
                        value_tree(value) == JsonTree::Array(all),
                        it.seq().len() == all.len(),
                        out@.len() == it.index(),
                        forall|j: int| 0 <= j < all.len() ==> value_tree(#[trigger] it.seq()[j]) == all[j],
                        forall|j: int| 0 <= j < out@.len() ==> tree(#[trigger] out@[j]) == all[j],
                {
                    proof {
                        assert(value_tree(item) == all[it.index()]);
                        assert(decreases_to!(value_tree(value) => value_tree(value)->Array_0));
                        assert(decreases_to!(all => all[it.index()]));
                    }
                    let converted = JsonValue::from_serde(item);
                    out.push(converted);
                }
                assert(trees(out@) =~= all);
                JsonValue::Array(out)
            },
            Node::Object(fields) => {
                let ghost all = fields@.map_values(
                    |field: (String, serde_json::Value)| (field.0@, value_tree(field.1)),
                );
                let mut out: Vec<(String, JsonValue)> = Vec::new();
                for field in it: fields
                    invariant
                        value_tree(value) == JsonTree::Object(all),
                        it.seq().len() == all.len(),
                        out@.len() == it.index(),
                        forall|j: int|
                            0 <= j < all.len() ==> ((#[trigger] it.seq()[j]).0@, value_tree(
                                it.seq()[j].1,
                            )) == all[j],
                        forall|j: int|
                            0 <= j < out@.len() ==> ((#[trigger] out@[j]).0@, tree(out@[j].1))
                                == all[j],
                {
                    proof {
                        assert((field.0@, value_tree(field.1)) == all[it.index()]);
                        assert(decreases_to!(value_tree(value) => value_tree(value)->Object_0));
                        assert(decreases_to!(all => all[it.index()]));
                        assert(decreases_to!(all[it.index()] => all[it.index()].1));
                    }
                    let (name, inner) = field;
                    let converted = JsonValue::from_serde(inner);
                    out.push((name, converted));
                }
                assert(field_trees(out@) =~= all);
                JsonValue::Object(out)
            },
        }
    }

    /// Reads a text as JSON, or says in words why it is none.
    pub fn parse(text: &str) -> (r: Result<JsonValue, String>)
        ensures
            match r {
                Ok(value) => parsed(text@) == Ok::<JsonTree, Seq<char>>(value@),
                Err(words) => parsed(text@) == Err::<JsonTree, Seq<char>>(words@),
            },
    {
        match parse_text(text) {
            Ok(value) => Ok(JsonValue::from_serde(value)),
            Err(words) => Err(words),
        }
    }
}

// ---------------------------------------------------------------------------
// Doubles
// ---------------------------------------------------------------------------
/// The decimal text of the double that a number is read as. For a whole number
/// it is what `serde_json` makes of the number with an exponent of zero, which
/// is the nearest double.
pub open spec fn double_text(number: NumberTree) -> Seq<char> {
    match number {
        NumberTree::Double(text) => text,
        NumberTree::Integer(_) => match parsed(rendered_number(number) + "e0"@) {
            Ok(JsonTree::Number(NumberTree::Double(text))) => text,
            _ => rendered_number(number),
        },
    }
}

impl JsonNumber {
    /// The decimal text of the double that the number is read as.
    pub fn double_text(&self) -> (r: String)
        ensures
            r@ == double_text(self@),
    {
        match self {
            JsonNumber::Double(text) => text.as_str().to_owned(),
            _ => {
                let mut widened = self.render();
                widened.append("e0");
                match JsonValue::parse(widened.as_str()) {
                    Ok(JsonValue::Number(JsonNumber::Double(text))) => text,
                    _ => self.render(),
                }
            },
        }
    }
}

} // verus!
