use vstd::prelude::*;
use vstd::string::*;

verus! {

/// A JSON document as a mathematical tree.
pub enum JsonTree {
    Null,
    Bool(bool),
    Number { positive: bool, mantissa: u64, exponent: i16 },
    Text(Seq<char>),
    List(Seq<JsonTree>),
    Object(Seq<(Seq<char>, JsonTree)>),
}

/// A JSON document held in memory. An object keeps its fields in the order
/// in which they were first written.
#[derive(Debug, PartialEq)]
pub enum Json {
    Null,
    Bool(bool),
    Number { positive: bool, mantissa: u64, exponent: i16 },
    Text(String),
    List(Vec<Json>),
    Object(Vec<(String, Json)>),
}

impl Json {
    /// The tree that this document holds.
    pub open spec fn tree(self) -> JsonTree
        decreases self,
    {
        match self {
            Json::Null => JsonTree::Null,
            Json::Bool(b) => JsonTree::Bool(b),
            Json::Number { positive, mantissa, exponent } => JsonTree::Number {
                positive,
                mantissa,
                exponent,
            },
            Json::Text(s) => JsonTree::Text(s@),
            Json::List(items) => JsonTree::List(
                Seq::new(
                    items@.len(),
                    |i: int|
                        if 0 <= i < items@.len() {
                            items@[i].tree()
                        } else {
                            JsonTree::Null
                        },
                ),
            ),
            Json::Object(fields) => JsonTree::Object(
                Seq::new(
                    fields@.len(),
                    |i: int|
                        if 0 <= i < fields@.len() {
                            (fields@[i].0@, fields@[i].1.tree())
                        } else {
                            (Seq::empty(), JsonTree::Null)
                        },
                ),
            ),
        }
    }
}

impl View for Json {
    type V = JsonTree;

    open spec fn view(&self) -> JsonTree {
        self.tree()
    }
}

/// The value of the first of `fields` that is called `key`, if there is one.
pub open spec fn field_value(fields: Seq<(Seq<char>, JsonTree)>, key: Seq<char>) -> Option<
    JsonTree,
>
    decreases fields.len(),
{
    if fields.len() == 0 {
        None
    } else if fields[0].0 == key {
        Some(fields[0].1)
    } else {
        field_value(fields.skip(1), key)
    }
}

impl JsonTree {
    /// The value of the field `key`, if this is an object that has it.
    pub open spec fn member(self, key: Seq<char>) -> Option<JsonTree> {
        match self {
            JsonTree::Object(fields) => field_value(fields, key),
            _ => None,
        }
    }

    /// The characters of this value, if it is a string.
    pub open spec fn text(self) -> Option<Seq<char>> {
        match self {
            JsonTree::Text(s) => Some(s),
            _ => None,
        }
    }

    /// The elements of this value, if it is an array.
    pub open spec fn items(self) -> Option<Seq<JsonTree>> {
        match self {
            JsonTree::List(items) => Some(items),
            _ => None,
        }
    }
}

/// The trees of a sequence of documents.
pub open spec fn trees(items: Seq<Json>) -> Seq<JsonTree> {
    Seq::new(items.len(), |i: int| items[i]@)
}

/// The most ASCII digits in a row that a text may hold to be read as JSON.
///
/// `json::parse` counts the digits of a fraction in a 16-bit exponent; a
/// longer run of digits could carry that count out of its range.
pub const MAX_DIGIT_RUN: usize = 32767;

/// One of the characters `0` to `9`.
pub open spec fn is_ascii_digit(c: char) -> bool {
    '0' <= c <= '9'
}

/// The number of ASCII digits that `text` ends with.
pub open spec fn trailing_digits(text: Seq<char>) -> nat
    decreases text.len(),
{
    if text.len() > 0 && is_ascii_digit(text.last()) {
        1 + trailing_digits(text.drop_last())
    } else {
        0
    }
}

/// No run of ASCII digits in `text` is longer than [`MAX_DIGIT_RUN`].
pub open spec fn has_short_digit_runs(text: Seq<char>) -> bool {
    forall|i: int|
        0 <= i <= text.len() ==> trailing_digits(#[trigger] text.take(i)) <= MAX_DIGIT_RUN
}

/// The tree that `json::parse` makes of `text`, or `None` where it rejects
/// the text. It speaks only of texts without long runs of digits.
pub uninterp spec fn parsed(text: Seq<char>) -> Option<JsonTree>;

/// The document that `text` is read as: none where the text holds a run of
/// more than [`MAX_DIGIT_RUN`] digits, and else what `json::parse` makes of
/// it.
pub open spec fn document_of(text: Seq<char>) -> Option<JsonTree> {
    if has_short_digit_runs(text) {
        parsed(text)
    } else {
        None
    }
}

/// The tree that a value of the `json` crate holds.
pub uninterp spec fn tree_of(value: json::JsonValue) -> JsonTree;

/// Makes `json::JsonValue` known as a type. A value of it is opaque: all
/// that contracts say of one goes through [`tree_of`].
#[verifier::external_type_specification]
#[verifier::external_body]
pub struct ExJsonValue(json::JsonValue);

/// Makes `json::Error` known as a type. Nothing is said of its values.
#[verifier::external_type_specification]
#[verifier::external_body]
pub struct ExJsonError(json::Error);

/// `json::parse` reads a whole text as one JSON value.
///
/// Texts with a run of more than [`MAX_DIGIT_RUN`] digits are left out: on
/// a fraction of that many zeros the parser's exponent leaves the range of
/// its 16 bits, which stops a build that checks arithmetic. On every other
/// text the outcome is a function of the text alone: the contract gives the
/// tree of an accepted text the name [`parsed`] and claims nothing else.
pub assume_specification[ json::parse ](source: &str) -> (r: Result<json::JsonValue, json::Error>)
    requires
        has_short_digit_runs(source@),
    ensures
        match r {
            Ok(value) => parsed(source@) == Some(tree_of(value)),
            Err(_) => parsed(source@) is None,
        },
;

/// Copies a value of the `json` crate into a [`Json`], variant by variant:
/// both of its string forms become `Text`, a number is taken apart with
/// `Number::as_parts`, and the fields of an object come in the order of
/// `Object::iter`.
///
/// The contract says only that the copy holds what the value holds, under
/// the name [`tree_of`].
#[verifier::external_body]
fn copied(value: &json::JsonValue) -> (tree: Json)
    ensures
        tree@ == tree_of(*value),
{
    match value {
        json::JsonValue::Null => Json::Null,
        json::JsonValue::Boolean(b) => Json::Bool(*b),
        json::JsonValue::Number(n) => {
            let (positive, mantissa, exponent) = n.as_parts();
            Json::Number { positive, mantissa, exponent }
        },
        json::JsonValue::Short(s) => Json::Text(s.as_str().to_string()),
        json::JsonValue::String(s) => Json::Text(s.clone()),
        json::JsonValue::Array(items) => Json::List(items.iter().map(copied).collect()),
        json::JsonValue::Object(o) => Json::Object(
            o.iter().map(|(key, item)| (key.to_string(), copied(item))).collect(),
        ),
    }
}

/// Tells whether no run of ASCII digits in `text` is longer than
/// [`MAX_DIGIT_RUN`].
pub fn digit_runs_are_short(text: &str) -> (r: bool)
    ensures
        r == has_short_digit_runs(text@),
{
    let mut run: usize = 0;
    assert(text@.take(0) =~= Seq::<char>::empty());
    for c in it: text.chars()
        invariant
            it.seq() == text@,
            run == trailing_digits(text@.take(it.index() as int)),
            run <= MAX_DIGIT_RUN,
            forall|j: int|
                0 <= j <= it.index() ==> trailing_digits(#[trigger] text@.take(j))
                    <= MAX_DIGIT_RUN,
    {
        proof {
            let k = it.index() as int;
            assert(text@.take(k + 1).drop_last() =~= text@.take(k));
            assert(text@.take(k + 1).last() == c);
        }
        if '0' <= c && c <= '9' {
            if run == MAX_DIGIT_RUN {
                return false;
            }
            run += 1;
        } else {
            run = 0;
        }
    }
    true
}

impl Json {
    /// Reads `text` as a JSON document, as [`document_of`] describes:
    /// `None` if it holds too long a run of digits or is no JSON.
    pub fn parse(text: &str) -> (r: Option<Json>)
        ensures
            match r {
                Some(doc) => document_of(text@) == Some(doc@),
                None => document_of(text@) is None,
            },
    {
        if !digit_runs_are_short(text) {
            return None;
        }
        match json::parse(text) {
            Ok(value) => Some(copied(&value)),
            Err(_) => None,
        }
    }

    /// The value of the field `key`, if this is an object that has it.
    pub fn member(&self, key: &str) -> (r: Option<&Json>)
        ensures
            match r {
                Some(value) => self@.member(key@) == Some(value@),
                None => self@.member(key@) is None,
            },
    {
        match self {
            Json::Object(fields) => {
                let wanted = String::from_str(key);
                let ghost all = self@->Object_0;
                let n = fields.len();
                let mut i: usize = 0;
                assert(all.skip(0) =~= all);
                while i < n
                    invariant
                        i <= n == fields@.len() == all.len(),
                        wanted@ == key@,
                        self@ == JsonTree::Object(all),
                        forall|j: int|
                            0 <= j < n ==> all[j] == (#[trigger] fields@[j].0@, fields@[j].1@),
                        field_value(all, key@) == field_value(all.skip(i as int), key@),
                    decreases n - i,
                {
                    assert(all.skip(i as int).skip(1) =~= all.skip(i + 1));
                    if fields[i].0 == wanted {
                        return Some(&fields[i].1);
                    }
                    i += 1;
                }
                None
            },
            _ => None,
        }
    }

    /// The text of this value, if it is a string.
    pub fn text(&self) -> (r: Option<&String>)
        ensures
            match r {
                Some(s) => self@.text() == Some(s@),
                None => self@.text() is None,
            },
    {
        match self {
            Json::Text(s) => Some(s),
            _ => None,
        }
    }

    /// The elements of this value, if it is an array.
    pub fn items(&self) -> (r: Option<&Vec<Json>>)
        ensures
            match r {
                Some(items) => self@.items() == Some(trees(items@)),
                None => self@.items() is None,
            },
    {
        match self {
            Json::List(items) => {
                Some(items)
            },
            _ => None,
        }
    }
}

} // verus!
