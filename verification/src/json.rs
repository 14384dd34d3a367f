//! The JSON that crosses D1's API.

use vstd::prelude::*;

use crate::text::{decimal, numeral, push_decimal};

verus! {

/// A double, known by its bit pattern and by the way JSON writes it.
#[derive(Debug, PartialEq)]
pub struct Float {
    /// The IEEE 754 bit pattern.
    pub bits: u64,
    /// The number as JSON text. JSON has no text for a double that is not finite.
    pub text: String,
}

/// A JSON number.
#[derive(Debug, PartialEq)]
pub enum Number {
    /// A number written without fraction and exponent.
    Integer(i128),
    /// Any other number.
    Float(Float),
}

/// A JSON value. The entries of an object are in the order in which they are
/// written.
#[derive(Debug, PartialEq)]
pub enum Json {
    Null,
    Bool(bool),
    Number(Number),
    String(String),
    Array(Vec<Json>),
    Object(Vec<(String, Json)>),
}

/// What a [`Float`] stands for.
#[verifier::ext_equal]
pub struct FloatView {
    pub bits: u64,
    pub text: Seq<char>,
}

/// What a [`Number`] stands for.
#[verifier::ext_equal]
pub enum NumberView {
    Integer(int),
    Float(FloatView),
}

/// What a [`Json`] stands for.
#[verifier::ext_equal]
pub enum JsonView {
    Null,
    Bool(bool),
    Number(NumberView),
    String(Seq<char>),
    Array(Seq<JsonView>),
    Object(Seq<(Seq<char>, JsonView)>),
}

impl View for Float {
    type V = FloatView;

    open spec fn view(&self) -> FloatView {
        FloatView { bits: self.bits, text: self.text@ }
    }
}

impl View for Number {
    type V = NumberView;

    open spec fn view(&self) -> NumberView {
        match self {
            Number::Integer(n) => NumberView::Integer(*n as int),
            Number::Float(f) => NumberView::Float(f@),
        }
    }
}

impl View for Json {
    type V = JsonView;

    open spec fn view(&self) -> JsonView {
        json_view(*self)
    }
}

/// What a JSON value stands for.
pub open spec fn json_view(json: Json) -> JsonView
    decreases json,
{
    match json {
        Json::Null => JsonView::Null,
        Json::Bool(b) => JsonView::Bool(b),
        Json::Number(n) => JsonView::Number(n@),
        Json::String(s) => JsonView::String(s@),
        Json::Array(items) => JsonView::Array(
            Seq::new(
                items@.len(),
                |i: int|
                    if 0 <= i < items@.len() {
                        json_view(items@[i])
                    } else {
                        arbitrary()
                    },
            ),
        ),
        Json::Object(entries) => JsonView::Object(
            Seq::new(
                entries@.len(),
                |i: int|
                    if 0 <= i < entries@.len() {
                        (entries@[i].0@, json_view(entries@[i].1))
                    } else {
                        arbitrary()
                    },
            ),
        ),
    }
}

/// What a list of JSON values stands for.
pub open spec fn json_views(items: Seq<Json>) -> Seq<JsonView> {
    Seq::new(items.len(), |i: int| items[i]@)
}

impl Clone for Float {
    fn clone(&self) -> (r: Float)
        ensures
            r@ == self@,
    {
        Float { bits: self.bits, text: self.text.clone() }
    }
}

impl Clone for Number {
    fn clone(&self) -> (r: Number)
        ensures
            r@ == self@,
    {
        match self {
            Number::Integer(n) => Number::Integer(*n),
            Number::Float(f) => Number::Float(f.clone()),
        }
    }
}

/// A copy of a value.
fn copy_of(json: &Json) -> (r: Json)
    ensures
        r@ == json@,
    decreases json,
{
    match json {
        Json::Null => Json::Null,
        Json::Bool(b) => Json::Bool(*b),
        Json::Number(n) => Json::Number(n.clone()),
        Json::String(s) => Json::String(s.clone()),
        Json::Array(items) => {
            let mut copies: Vec<Json> = Vec::new();
            let mut i: usize = 0;
            while i < items.len()
                invariant
                    i == copies@.len(),
                    i <= items@.len(),
                    *json == Json::Array(*items),
                    forall|k: int| 0 <= k < i ==> (#[trigger] copies@[k])@ == items@[k]@,
                decreases items@.len() - i,
            {
                assert(decreases_to!(json => json->Array_0@[i as int]));
                copies.push(copy_of(&items[i]));
                i += 1;
            }
            let r = Json::Array(copies);
            assert(r@->Array_0 =~= json@->Array_0);
            r
        },
        Json::Object(entries) => {
            let mut copies: Vec<(String, Json)> = Vec::new();
            let mut i: usize = 0;
            while i < entries.len()
                invariant
                    i == copies@.len(),
                    i <= entries@.len(),
                    *json == Json::Object(*entries),
                    forall|k: int|
                        0 <= k < i ==> (#[trigger] copies@[k]).0@ == entries@[k].0@
                            && copies@[k].1@ == entries@[k].1@,
                decreases entries@.len() - i,
            {
                assert(decreases_to!(json => json->Object_0@[i as int].1));
                copies.push((entries[i].0.clone(), copy_of(&entries[i].1)));
                i += 1;
            }
            let r = Json::Object(copies);
            assert(r@->Object_0 =~= json@->Object_0);
            r
        },
    }
}

impl Clone for Json {
    fn clone(&self) -> (r: Json)
        ensures
            r@ == self@,
    {
        copy_of(self)
    }
}

/// A character inside a JSON string.
pub open spec fn escaped_char(c: char) -> Seq<char> {
    if c == '"' || c == '\\' {
        seq!['\\', c]
    } else if c == '\u{8}' {
        seq!['\\', 'b']
    } else if c == '\t' {
        seq!['\\', 't']
    } else if c == '\n' {
        seq!['\\', 'n']
    } else if c == '\u{c}' {
        seq!['\\', 'f']
    } else if c == '\r' {
        seq!['\\', 'r']
    } else if ' ' > c {
        seq!['\\', 'u', '0', '0', numeral((c as nat) / 16), numeral((c as nat) % 16)]
    } else {
        seq![c]
    }
}

/// The characters of `s` inside a JSON string.
pub open spec fn escaped(s: Seq<char>) -> Seq<char>
    decreases s.len(),
{
    if s.len() == 0 {
        Seq::empty()
    } else {
        escaped(s.drop_last()) + escaped_char(s.last())
    }
}

/// `s` as a JSON string.
pub open spec fn quoted(s: Seq<char>) -> Seq<char> {
    seq!['"'] + escaped(s) + seq!['"']
}

/// A number as JSON writes it.
pub open spec fn number_text(n: NumberView) -> Seq<char> {
    match n {
        NumberView::Integer(i) => decimal(i),
        NumberView::Float(f) => f.text,
    }
}

/// A value as JSON writes it, without white space.
pub open spec fn json_text(json: JsonView) -> Seq<char>
    decreases json, 0nat,
{
    match json {
        JsonView::Null => "null"@,
        JsonView::Bool(b) => if b {
            "true"@
        } else {
            "false"@
        },
        JsonView::Number(n) => number_text(n),
        JsonView::String(s) => quoted(s),
        JsonView::Array(items) => seq!['['] + items_text(items, items.len()) + seq![']'],
        JsonView::Object(entries) => seq!['{'] + entries_text(entries, entries.len()) + seq!['}'],
    }
}

/// The first `n` of the items, with commas between them.
pub open spec fn items_text(items: Seq<JsonView>, n: nat) -> Seq<char>
    decreases items, n,
{
    if n == 0 || n > items.len() {
        Seq::empty()
    } else if n == 1 {
        json_text(items[0])
    } else {
        items_text(items, (n - 1) as nat) + seq![','] + json_text(items[n - 1])
    }
}

/// The first `n` of the entries, with commas between them.
pub open spec fn entries_text(entries: Seq<(Seq<char>, JsonView)>, n: nat) -> Seq<char>
    decreases entries, n,
{
    if n == 0 || n > entries.len() {
        Seq::empty()
    } else if n == 1 {
        quoted(entries[0].0) + seq![':'] + json_text(entries[0].1)
    } else {
        entries_text(entries, (n - 1) as nat) + seq![','] + quoted(entries[n - 1].0) + seq![':']
            + json_text(entries[n - 1].1)
    }
}

/// The JSON text of a string.
///
/// `serde_json::Value`'s `Display` writes a string between double quotes; it
/// puts a backslash before a double quote and a backslash, has short escapes
/// for backspace, tab, line feed, form feed and carriage return, writes the
/// other control characters below the space as `\u00` and two lower-case
/// hexadecimal digits, and every other character as it is.
#[verifier::external_body]
fn quote(s: &str) -> (r: String)
    ensures
        r@ == quoted(s@),
{
    serde_json::Value::String(s.to_string()).to_string()
}

/// Appends a number as JSON writes it.
pub fn push_number_text(out: &mut String, n: &Number)
    ensures
        final(out)@ == old(out)@ + number_text(n@),
{
    match n {
        Number::Integer(i) => push_decimal(out, *i),
        Number::Float(f) => out.append(f.text.as_str()),
    }
}

/// Appends a value as JSON writes it.
pub fn push_json_text(out: &mut String, json: &Json)
    ensures
        final(out)@ == old(out)@ + json_text(json@),
    decreases json,
{
    match json {
        Json::Null => out.append("null"),
        Json::Bool(b) => if *b {
            out.append("true")
        } else {
            out.append("false")
        },
        Json::Number(n) => push_number_text(out, n),
        Json::String(s) => {
            let text = quote(s.as_str());
            out.append(text.as_str())
        },
        Json::Array(items) => {
            out.push('[');
            let mut i: usize = 0;
            while i < items.len()
                invariant
                    i <= items@.len(),
                    *json == Json::Array(*items),
                    out@ == old(out)@ + seq!['['] + items_text(json@->Array_0, i as nat),
                decreases items@.len() - i,
            {
                if i > 0 {
                    out.push(',');
                }
                push_json_text(out, &items[i]);
                i += 1;
            }
            out.push(']');
        },
        Json::Object(entries) => {
            out.push('{');
            let mut i: usize = 0;
            while i < entries.len()
                invariant
                    i <= entries@.len(),
                    *json == Json::Object(*entries),
                    out@ == old(out)@ + seq!['{'] + entries_text(json@->Object_0, i as nat),
                decreases entries@.len() - i,
            {
                if i > 0 {
                    out.push(',');
                }
                let key = quote(entries[i].0.as_str());
                out.append(key.as_str());
                out.push(':');
                push_json_text(out, &entries[i].1);
                i += 1;
            }
            out.push('}');
        },
    }
}

/// A value as JSON writes it, without white space.
pub fn json_to_string(json: &Json) -> (r: String)
    ensures
        r@ == json_text(json@),
{
    let mut out = String::new();
    push_json_text(&mut out, json);
    out
}

/// A JSON value stands for itself: the items of an array and the entries of an
/// object keep their number and their places.
pub proof fn json_stands_for_itself(
    b: bool,
    n: Number,
    s: String,
    items: Vec<Json>,
    entries: Vec<(String, Json)>,
    i: int,
)
    ensures
        Json::Null@ == JsonView::Null,
        Json::Bool(b)@ == JsonView::Bool(b),
        Json::Number(n)@ == JsonView::Number(n@),
        Json::String(s)@ == JsonView::String(s@),
        Json::Array(items)@ is Array,
        (Json::Array(items)@->Array_0).len() == items@.len(),
        0 <= i < items@.len() ==> (Json::Array(items)@->Array_0)[i] == items@[i]@,
        Json::Object(entries)@ is Object,
        (Json::Object(entries)@->Object_0).len() == entries@.len(),
        0 <= i < entries@.len() ==> (Json::Object(entries)@->Object_0)[i] == (
            entries@[i].0@,
            entries@[i].1@,
        ),
        json_views(items@).len() == items@.len(),
        0 <= i < items@.len() ==> json_views(items@)[i] == items@[i]@,
{
}

/// A number stands for itself.
pub proof fn number_stands_for_itself(n: i128, f: Float)
    ensures
        Number::Integer(n)@ == NumberView::Integer(n as int),
        Number::Float(f)@ == NumberView::Float(f@),
        f@.bits == f.bits,
        f@.text == f.text@,
{
}

/// A float is written with its whole text, an integer in decimal, and the
/// other scalars by their names.
pub proof fn scalars_have_their_json_text(n: int, f: FloatView, s: Seq<char>)
    ensures
        json_text(JsonView::Number(NumberView::Float(f))) == f.text,
        json_text(JsonView::Number(NumberView::Integer(n))) == decimal(n),
        json_text(JsonView::Null) == "null"@,
        json_text(JsonView::Bool(true)) == "true"@,
        json_text(JsonView::Bool(false)) == "false"@,
        json_text(JsonView::String(s)) == quoted(s),
        number_text(NumberView::Float(f)) == f.text,
        number_text(NumberView::Integer(n)) == decimal(n),
{
}

proof fn lemma_items_text(items: Seq<JsonView>, item: JsonView, n: nat)
    requires
        n <= items.len(),
    ensures
        items_text(items.push(item), n) == items_text(items, n),
    decreases n,
{
    if n > 1 {
        lemma_items_text(items, item, (n - 1) as nat);
    }
}

proof fn lemma_entries_text(
    entries: Seq<(Seq<char>, JsonView)>,
    entry: (Seq<char>, JsonView),
    n: nat,
)
    requires
        n <= entries.len(),
    ensures
        entries_text(entries.push(entry), n) == entries_text(entries, n),
    decreases n,
{
    if n > 1 {
        lemma_entries_text(entries, entry, (n - 1) as nat);
    }
}

/// An array's text holds the text of each item, with a comma before every one
/// but the first: one more item is written before the closing bracket.
pub proof fn array_text_grows(items: Seq<JsonView>, item: JsonView)
    ensures
        json_text(JsonView::Array(Seq::empty())) == seq!['[', ']'],
        items.len() == 0 ==> json_text(JsonView::Array(items.push(item))) == seq!['[']
            + json_text(item) + seq![']'],
        items.len() > 0 ==> json_text(JsonView::Array(items.push(item))) == json_text(
            JsonView::Array(items),
        ).drop_last() + seq![','] + json_text(item) + seq![']'],
{
    let longer = items.push(item);
    assert(json_text(JsonView::Array(Seq::empty())) =~= seq!['[', ']']);
    lemma_items_text(items, item, items.len());
    if items.len() > 0 {
        assert(longer[longer.len() - 1] == item);
        assert(items_text(longer, longer.len()) == items_text(items, items.len()) + seq![',']
            + json_text(item));
        assert(json_text(JsonView::Array(longer)) =~= json_text(JsonView::Array(items)).drop_last()
            + seq![','] + json_text(item) + seq![']']);
    }
}

/// An object's text holds each key and its value, with a comma before every
/// entry but the first: one more entry is written before the closing brace.
pub proof fn object_text_grows(
    entries: Seq<(Seq<char>, JsonView)>,
    key: Seq<char>,
    value: JsonView,
)
    ensures
        json_text(JsonView::Object(Seq::empty())) == seq!['{', '}'],
        entries.len() == 0 ==> json_text(JsonView::Object(entries.push((key, value)))) == seq!['{']
            + quoted(key) + seq![':'] + json_text(value) + seq!['}'],
        entries.len() > 0 ==> json_text(JsonView::Object(entries.push((key, value))))
            == json_text(JsonView::Object(entries)).drop_last() + seq![','] + quoted(key)
            + seq![':'] + json_text(value) + seq!['}'],
{
    let longer = entries.push((key, value));
    assert(json_text(JsonView::Object(Seq::empty())) =~= seq!['{', '}']);
    lemma_entries_text(entries, (key, value), entries.len());
    assert(longer[longer.len() - 1] == (key, value));
    if entries.len() > 0 {
        assert(json_text(JsonView::Object(longer)) =~= json_text(
            JsonView::Object(entries),
        ).drop_last() + seq![','] + quoted(key) + seq![':'] + json_text(value) + seq!['}']);
    } else {
        assert(json_text(JsonView::Object(longer)) =~= seq!['{'] + quoted(key) + seq![':']
            + json_text(value) + seq!['}']);
    }
}

/// A string's text holds each character in its place: as it is, or behind a
/// backslash where JSON asks for that.
pub proof fn quoted_grows(s: Seq<char>, c: char)
    ensures
        quoted(Seq::empty()) == seq!['"', '"'],
        ' ' <= c && c != '"' && c != '\\' ==> quoted(s.push(c)) == quoted(s).drop_last() + seq![c, '"'],
        c == '"' ==> quoted(s.push(c)) == quoted(s).drop_last() + seq!['\\', '"', '"'],
        c == '\\' ==> quoted(s.push(c)) == quoted(s).drop_last() + seq!['\\', '\\', '"'],
        c == '\n' ==> quoted(s.push(c)) == quoted(s).drop_last() + seq!['\\', 'n', '"'],
        c == '\t' ==> quoted(s.push(c)) == quoted(s).drop_last() + seq!['\\', 't', '"'],
        c == '\r' ==> quoted(s.push(c)) == quoted(s).drop_last() + seq!['\\', 'r', '"'],
        c == '\u{8}' ==> quoted(s.push(c)) == quoted(s).drop_last() + seq!['\\', 'b', '"'],
        c == '\u{c}' ==> quoted(s.push(c)) == quoted(s).drop_last() + seq!['\\', 'f', '"'],
        c < ' ' && c != '\n' && c != '\t' && c != '\r' && c != '\u{8}' && c != '\u{c}' ==> quoted(
            s.push(c),
        ) == quoted(s).drop_last() + seq![
            '\\',
            'u',
            '0',
            '0',
            "0123456789abcdef"@[c as int / 16],
            "0123456789abcdef"@[c as int % 16],
            '"',
        ],
{
    reveal_strlit("0123456789abcdef");
    assert(s.push(c).drop_last() =~= s);
    assert(quoted(Seq::empty()) =~= seq!['"', '"']);
    assert(quoted(s.push(c)) =~= quoted(s).drop_last() + escaped_char(c) + seq!['"']);
    assert(quoted(s).drop_last() + escaped_char(c) + seq!['"'] =~= quoted(s).drop_last() + (
    escaped_char(c) + seq!['"']));
    assert(escaped_char(c).len() == 1 ==> escaped_char(c) + seq!['"'] =~= seq![
        escaped_char(c)[0],
        '"',
    ]);
    assert(escaped_char(c).len() == 2 ==> escaped_char(c) + seq!['"'] =~= seq![
        escaped_char(c)[0],
        escaped_char(c)[1],
        '"',
    ]);
    assert(escaped_char(c).len() == 6 ==> escaped_char(c) + seq!['"'] =~= seq![
        escaped_char(c)[0],
        escaped_char(c)[1],
        escaped_char(c)[2],
        escaped_char(c)[3],
        escaped_char(c)[4],
        escaped_char(c)[5],
        '"',
    ]);
}

} // verus!
