//! JSON values: reading them with `serde_json`, and looking into them.

use crate::text::text_equal;
use vstd::prelude::*;

verus! {

// ---------------------------------------------------------------------------------------------
// Values
// ---------------------------------------------------------------------------------------------
/// A JSON value.
#[derive(Debug)]
pub enum Json {
    Null,
    Bool(bool),
    /// A number: its value where it is an unsigned 64-bit integer, and the bits of the
    /// double-precision number that stands for it where there is one.
    Number { unsigned: Option<u64>, double_bits: Option<u64> },
    Text(String),
    List(Vec<Json>),
    /// The fields of an object, each with its name.
    Object(Vec<(String, Json)>),
}

/// A JSON value as mathematics.
pub enum JsonTree {
    Null,
    Bool(bool),
    Number { unsigned: Option<u64>, double_bits: Option<u64> },
    Text(Seq<char>),
    List(Seq<JsonTree>),
    Object(Seq<(Seq<char>, JsonTree)>),
}

impl View for Json {
    type V = JsonTree;

    open spec fn view(&self) -> JsonTree {
        self.tree()
    }
}

/// The first field with a name, and null where there is none.
pub open spec fn named_field(fields: Seq<(Seq<char>, JsonTree)>, name: Seq<char>) -> JsonTree
    decreases fields.len(),
{
    if fields.len() == 0 {
        JsonTree::Null
    } else if fields[0].0 == name {
        fields[0].1
    } else {
        named_field(fields.skip(1), name)
    }
}

impl JsonTree {
    /// The field of an object with a name; null where the object has none, or is no object.
    pub open spec fn field(self, name: Seq<char>) -> JsonTree {
        match self {
            JsonTree::Object(fields) => named_field(fields, name),
            _ => JsonTree::Null,
        }
    }

    /// The characters of a text.
    pub open spec fn as_text(self) -> Option<Seq<char>> {
        match self {
            JsonTree::Text(text) => Some(text),
            _ => None,
        }
    }

    /// The value of a number that is an unsigned 64-bit integer.
    pub open spec fn as_unsigned(self) -> Option<u64> {
        match self {
            JsonTree::Number { unsigned, .. } => unsigned,
            _ => None,
        }
    }

    /// The bits of the double-precision number that stands for a number.
    pub open spec fn as_double(self) -> Option<u64> {
        match self {
            JsonTree::Number { double_bits, .. } => double_bits,
            _ => None,
        }
    }

    /// The items of a list.
    pub open spec fn as_list(self) -> Option<Seq<JsonTree>> {
        match self {
            JsonTree::List(items) => Some(items),
            _ => None,
        }
    }
}

/// The trees of a sequence of values.
pub open spec fn trees(items: Seq<Json>) -> Seq<JsonTree> {
    items.map_values(|item: Json| item@)
}

impl Json {
    /// The value as mathematics.
    pub open spec fn tree(self) -> JsonTree
        decreases self,
    {
        match self {
            Json::Null => JsonTree::Null,
            Json::Bool(flag) => JsonTree::Bool(flag),
            Json::Number { unsigned, double_bits } => JsonTree::Number { unsigned, double_bits },
            Json::Text(text) => JsonTree::Text(text@),
            Json::List(items) => JsonTree::List(
                Seq::new(
                    items@.len(),
                    |i: int|
                        if 0 <= i < items@.len() {
                            items@[i].tree()
                        } else {
                            JsonTree::Null
                        },
                ),
            ),
            Json::Object(fields) => JsonTree::Object(
                Seq::new(
                    fields@.len(),
                    |i: int|
                        if 0 <= i < fields@.len() {
                            (fields@[i].0@, fields@[i].1.tree())
                        } else {
                            (Seq::empty(), JsonTree::Null)
                        },
                ),
            ),
        }
    }

    /// The field with a name; null where there is none, or the value is no object.
    pub fn field(&self, name: &str) -> (value: &Json)
        ensures
            value@ == self@.field(name@),
    {
        match self {
            Json::Object(fields) => {
                let ghost all = self@->Object_0;
                let mut i: usize = 0;
                assert(all.skip(0) =~= all);
                while i < fields.len()
                    invariant
                        self == Json::Object(*fields),
                        all == self@->Object_0,
                        all.len() == fields@.len(),
                        i <= fields@.len(),
                        named_field(all, name@) == named_field(all.skip(i as int), name@),
                    decreases fields@.len() - i,
                {
                    assert(all[i as int] == (fields@[i as int].0@, fields@[i as int].1@));
                    if text_equal(fields[i].0.as_str(), name) {
                        return &fields[i].1;
                    }
                    assert(all.skip(i as int).skip(1) =~= all.skip(i as int + 1));
                    i += 1;
                }
                assert(all.skip(i as int) =~= Seq::<(Seq<char>, JsonTree)>::empty());
                &Json::Null
            },
            _ => &Json::Null,
        }
    }

    /// The characters of a text.
    pub fn as_text(&self) -> (text: Option<&str>)
        ensures
            match text {
                Some(text) => self@.as_text() == Some(text@),
                None => self@.as_text() is None,
            },
    {
        match self {
            Json::Text(text) => Some(text.as_str()),
            _ => None,
        }
    }

    /// The value of a number that is an unsigned 64-bit integer.
    pub fn as_unsigned(&self) -> (number: Option<u64>)
        ensures
            number == self@.as_unsigned(),
    {
        match self {
            Json::Number { unsigned, .. } => *unsigned,
            _ => None,
        }
    }

    /// The bits of the double-precision number that stands for a number.
    pub fn as_double(&self) -> (double_bits: Option<u64>)
        ensures
            double_bits == self@.as_double(),
    {
        match self {
            Json::Number { double_bits, .. } => *double_bits,
            _ => None,
        }
    }

    /// The items of a list.
    pub fn as_list(&self) -> (items: Option<&Vec<Json>>)
        ensures
            match items {
                Some(items) => self@.as_list() == Some(trees(items@)),
                None => self@.as_list() is None,
            },
    {
        match self {
            Json::List(items) => {
                assert(self@->List_0 =~= trees(items@));
                Some(items)
            },
            _ => None,
        }
    }
}

// ---------------------------------------------------------------------------------------------
// Reading
// ---------------------------------------------------------------------------------------------
/// `serde_json::Value`, the JSON value that `serde_json` reads.
#[verifier::external_type_specification]
#[verifier::external_body]
pub struct ExValue(serde_json::Value);

/// What a `serde_json::Value` holds.
pub uninterp spec fn json_contents(value: serde_json::Value) -> JsonTree;

/// What `serde_json::from_str` makes of a text: the value that the text writes down, or the message
/// of its error.
pub uninterp spec fn json_outcome(text: Seq<char>) -> Result<JsonTree, Seq<char>>;

/// A `serde_json::Value` with its outermost layer opened.
enum JsonNode {
    Null,
    Bool(bool),
    Number,
    Text(String),
    List(Vec<serde_json::Value>),
    Object(Vec<(String, serde_json::Value)>),
}

/// The contents of the values in a list.
spec fn item_contents(items: Seq<serde_json::Value>) -> Seq<JsonTree> {
    items.map_values(|item: serde_json::Value| json_contents(item))
}

/// The contents of the fields of an object.
spec fn field_contents(fields: Seq<(String, serde_json::Value)>) -> Seq<(Seq<char>, JsonTree)> {
    fields.map_values(
        |field: (String, serde_json::Value)| (field.0@, json_contents(field.1)),
    )
}

/// Calls `serde_json::from_str`. What it returns follows from the text alone and has the name
/// [`json_outcome`]; an error is handed on by its message.
#[verifier::external_body]
fn read_value(text: &str) -> (outcome: Result<serde_json::Value, String>)
    ensures
        match outcome {
            Ok(value) => json_outcome(text@) == Ok::<JsonTree, Seq<char>>(json_contents(value)),
            Err(message) => json_outcome(text@) == Err::<JsonTree, Seq<char>>(message@),
        },
{
    serde_json::from_str(text).map_err(|error: serde_json::Error| error.to_string())
}

/// Calls `serde_json::Value::as_u64`: the value of a number that is an unsigned 64-bit integer.
#[verifier::external_body]
fn value_unsigned(value: &serde_json::Value) -> (number: Option<u64>)
    ensures
        number == json_contents(*value).as_unsigned(),
{
    value.as_u64()
}

/// Calls `serde_json::Value::as_f64`: the double-precision number that stands for a number, handed
/// on by its bits.
#[verifier::external_body]
fn value_double(value: &serde_json::Value) -> (double_bits: Option<u64>)
    ensures
        double_bits == json_contents(*value).as_double(),
{
    value.as_f64().map(|double| double.to_bits())
}

/// Tells the variants of a `serde_json::Value` apart and moves out what they hold. The names of the
/// fields of an object are all different.
#[verifier::external_body]
fn open_value(value: serde_json::Value) -> (node: JsonNode)
    ensures
        match node {
            JsonNode::Null => json_contents(value) == JsonTree::Null,
            JsonNode::Bool(flag) => json_contents(value) == JsonTree::Bool(flag),
            JsonNode::Number => json_contents(value) is Number,
            JsonNode::Text(text) => json_contents(value) == JsonTree::Text(text@),
            JsonNode::List(items) => json_contents(value) == JsonTree::List(item_contents(items@)),
            JsonNode::Object(fields) => json_contents(value) == JsonTree::Object(
                field_contents(fields@),
            ) && forall|i: int, j: int|
                0 <= i < j < fields@.len() ==> (#[trigger] fields@[i]).0@ != (
                #[trigger] fields@[j]).0@,
        },
{
    match value {
        serde_json::Value::Null => JsonNode::Null,
        serde_json::Value::Bool(flag) => JsonNode::Bool(flag),
        serde_json::Value::Number(_) => JsonNode::Number,
        serde_json::Value::String(text) => JsonNode::Text(text),
        serde_json::Value::Array(items) => JsonNode::List(items),
        serde_json::Value::Object(fields) => JsonNode::Object(fields.into_iter().collect()),
    }
}

/// The value that a `serde_json::Value` holds.
fn decode(value: serde_json::Value) -> (json: Json)
    ensures
        json@ == json_contents(value),
    decreases json_contents(value),
{
    let unsigned: Option<u64> = value_unsigned(&value);
    let double_bits: Option<u64> = value_double(&value);
    match open_value(value) {
        JsonNode::Null => Json::Null,
        JsonNode::Bool(flag) => Json::Bool(flag),
        JsonNode::Number => Json::Number { unsigned, double_bits },
        JsonNode::Text(text) => Json::Text(text),
        JsonNode::List(items) => {
            let mut list: Vec<Json> = Vec::new();
            let ghost all = items@;
            for item in it: items
                invariant
                    it.seq() == all,
                    list@.len() == it.index(),
                    json_contents(value) == JsonTree::List(item_contents(all)),
                    forall|i: int|
                        0 <= i < list@.len() ==> (#[trigger] list@[i])@ == json_contents(all[i]),
            {
                proof {
                    let i = it.index() as int;
                    let contents = item_contents(all);
                    assert(item == all[i]);
                    assert(contents[i] == json_contents(item));
                    assert(decreases_to!(contents => contents[i]));
                    assert(decreases_to!(json_contents(value) => json_contents(value)->List_0));
                }
                list.push(decode(item));
            }
            let json = Json::List(list);
            assert(json@->List_0 =~= json_contents(value)->List_0);
            json
        },
        JsonNode::Object(fields) => {
            let mut object: Vec<(String, Json)> = Vec::new();
            let ghost all = fields@;
            for field in it: fields
                invariant
                    it.seq() == all,
                    object@.len() == it.index(),
                    json_contents(value) == JsonTree::Object(field_contents(all)),
                    forall|i: int|
                        0 <= i < object@.len() ==> (#[trigger] object@[i]).0@ == all[i].0@
                            && object@[i].1@ == json_contents(all[i].1),
            {
                proof {
                    let i = it.index() as int;
                    let contents = field_contents(all);
                    assert(field == all[i]);
                    assert(contents[i] == (field.0@, json_contents(field.1)));
                    assert(decreases_to!(contents => contents[i]));
                    assert(decreases_to!(contents[i] => contents[i].1));
                    assert(decreases_to!(json_contents(value) => json_contents(value)->Object_0));
                }
                let (name, inner) = field;
                object.push((name, decode(inner)));
            }
            let json = Json::Object(object);
            assert(json@->Object_0 =~= json_contents(value)->Object_0);
            json
        },
    }
}

/// Reads the JSON value that a text writes down, or says what is wrong with the text.
pub fn parse_json(text: &str) -> (outcome: Result<Json, String>)
    ensures
        match outcome {
            Ok(json) => json_outcome(text@) == Ok::<JsonTree, Seq<char>>(json@),
            Err(message) => json_outcome(text@) == Err::<JsonTree, Seq<char>>(message@),
        },
{
    match read_value(text) {
        Ok(value) => Ok(decode(value)),
        Err(message) => Err(message),
    }
}

// ---------------------------------------------------------------------------------------------
// Laws
// ---------------------------------------------------------------------------------------------
/// A field of an object is the first one with its name. There is none with another name, and none
/// in what is no object: there null is read.
pub proof fn law_field_is_found_by_name(
    fields: Seq<(Seq<char>, JsonTree)>,
    name: Seq<char>,
    position: int,
    other: JsonTree,
)
    requires
        0 <= position <= fields.len(),
        forall|i: int| 0 <= i < position ==> (#[trigger] fields[i]).0 != name,
        position < fields.len() ==> fields[position].0 == name,
    ensures
        position < fields.len() ==> JsonTree::Object(fields).field(name) == fields[position].1,
        position == fields.len() ==> JsonTree::Object(fields).field(name) is Null,
        other !is Object ==> other.field(name) is Null,
    decreases fields.len(),
{
    if position > 0 {
        let rest = fields.skip(1);
        assert(fields[0].0 != name);
        assert forall|i: int| 0 <= i < position - 1 implies (#[trigger] rest[i]).0 != name by {
            assert(rest[i] == fields[i + 1]);
        }
        law_field_is_found_by_name(rest, name, position - 1, other);
    }
}

/// A value is read as what it is, and as nothing else.
pub proof fn law_values_are_read_as_they_are(
    value: JsonTree,
    text: Seq<char>,
    items: Seq<JsonTree>,
    unsigned: Option<u64>,
    double_bits: Option<u64>,
)
    ensures
        JsonTree::Text(text).as_text() == Some(text),
        JsonTree::List(items).as_list() == Some(items),
        (JsonTree::Number { unsigned, double_bits }).as_unsigned() == unsigned,
        (JsonTree::Number { unsigned, double_bits }).as_double() == double_bits,
        value !is Text ==> value.as_text() is None,
        value !is List ==> value.as_list() is None,
        value !is Number ==> value.as_unsigned() is None && value.as_double() is None,
{
}

/// The mathematics of a value follow its make-up, part by part.
pub proof fn law_tree_follows_the_value(value: Json)
    ensures
        value is Null ==> value@ is Null,
        value matches Json::Bool(flag) ==> value@ == JsonTree::Bool(flag),
        value matches Json::Number { unsigned, double_bits } ==> value@ == (JsonTree::Number {
            unsigned,
            double_bits,
        }),
        value matches Json::Text(text) ==> value@ == JsonTree::Text(text@),
        value matches Json::List(items) ==> {
            &&& value@ is List && value@->List_0.len() == items@.len()
            &&& forall|i: int|
                0 <= i < items@.len() ==> #[trigger] value@->List_0[i] == items@[i]@
        },
        value matches Json::Object(fields) ==> {
            &&& value@ is Object && value@->Object_0.len() == fields@.len()
            &&& forall|i: int|
                0 <= i < fields@.len() ==> #[trigger] value@->Object_0[i] == (
                    fields@[i].0@,
                    fields@[i].1@,
                )
        },
{
}

/// Items stand in their order.
pub proof fn law_items_stand_in_order(items: Seq<Json>, index: int)
    ensures
        trees(items).len() == items.len(),
        0 <= index < items.len() ==> trees(items)[index] == items[index]@,
{
}

} // verus!
