//! JSON values as plain data.
//!
//! The host and its workers exchange JSON. [`Json`] holds a value as ordinary
//! data that verified code can take apart; text is read and written by
//! `serde_json`, behind the trusted items in this file.

use vstd::prelude::*;

use crate::text;
use crate::text::contains_text;
use crate::text::same_text;

verus! {

/// What contracts say of a JSON number.
pub enum NumberModel {
    Unsigned(u64),
    /// Always below zero.
    Negative(i64),
    /// A number that is no integer, by the text that is written for it.
    Decimal(Seq<char>),
}

/// What contracts say of a JSON value.
pub enum JsonModel {
    Null,
    Bool(bool),
    Number(NumberModel),
    Text(Seq<char>),
    Array(Seq<JsonModel>),
    Object(Map<Seq<char>, JsonModel>),
}

/// A JSON number. Whole numbers are plain integers; any other number stays
/// in the form in which `serde_json` keeps it.
#[derive(Debug)]
pub enum JsonNumber {
    Unsigned(u64),
    Signed(i64),
    Other(serde_json::Number),
}

/// A JSON value. Of fields that share a name, the last one counts.
#[derive(Debug)]
pub enum Json {
    Null,
    Bool(bool),
    Number(JsonNumber),
    Text(String),
    Array(Vec<Json>),
    Object(Vec<(String, Json)>),
}

/// `serde_json::Number`, a number as that crate keeps it.
#[verifier::external_type_specification]
#[verifier::external_body]
pub struct ExSerdeNumber(serde_json::Number);

/// `serde_json::Value`, the tree that the parser of that crate builds.
#[verifier::external_type_specification]
#[verifier::external_body]
pub struct ExSerdeValue(serde_json::Value);

/// The model of a whole number.
pub open spec fn whole_number(n: int) -> NumberModel {
    if n < 0 {
        NumberModel::Negative(n as i64)
    } else {
        NumberModel::Unsigned(n as u64)
    }
}

impl View for JsonNumber {
    type V = NumberModel;

    open spec fn view(&self) -> NumberModel {
        match self {
            JsonNumber::Unsigned(n) => whole_number(*n as int),
            JsonNumber::Signed(n) => whole_number(*n as int),
            JsonNumber::Other(n) => number_contents(*n),
        }
    }
}

/// The model of a value.
pub open spec fn json_model(json: Json) -> JsonModel
    decreases json,
{
    match json {
        Json::Null => JsonModel::Null,
        Json::Bool(b) => JsonModel::Bool(b),
        Json::Number(n) => JsonModel::Number(n@),
        Json::Text(s) => JsonModel::Text(s@),
        Json::Array(items) => JsonModel::Array(items_model(items@)),
        Json::Object(fields) => JsonModel::Object(fields_model(fields@)),
    }
}

/// The models of the elements of an array.
pub open spec fn items_model(items: Seq<Json>) -> Seq<JsonModel>
    decreases items,
{
    if items.len() == 0 {
        seq![]
    } else {
        items_model(items.drop_last()).push(json_model(items.last()))
    }
}

/// The fields of an object by name, the last of a name counting.
pub open spec fn fields_model(fields: Seq<(String, Json)>) -> Map<Seq<char>, JsonModel>
    decreases fields,
{
    if fields.len() == 0 {
        Map::empty()
    } else {
        fields_model(fields.drop_last()).insert(fields.last().0@, json_model(fields.last().1))
    }
}

impl View for Json {
    type V = JsonModel;

    open spec fn view(&self) -> JsonModel {
        json_model(*self)
    }
}

/// What a `serde_json::Number` holds.
pub uninterp spec fn number_contents(number: serde_json::Number) -> NumberModel;

/// What a `serde_json::Value` holds.
pub uninterp spec fn value_contents(value: serde_json::Value) -> JsonModel;

/// What `serde_json::from_str` reads from a text, `None` where it refuses it.
pub uninterp spec fn json_of_text(text: Seq<char>) -> Option<JsonModel>;

/// The compact text that `serde_json` writes for a value.
pub uninterp spec fn text_of_json(model: JsonModel) -> Seq<char>;

/// One level of a `serde_json::Value`, its children left as they are.
pub enum ValueShape {
    Null,
    Bool(bool),
    Number(JsonNumber),
    Text(String),
    Array(Vec<serde_json::Value>),
    Object(Vec<(String, serde_json::Value)>),
}

/// What the children of an array hold.
pub open spec fn values_contents(items: Seq<serde_json::Value>) -> Seq<JsonModel> {
    items.map_values(|v: serde_json::Value| value_contents(v))
}

/// What the named children of an object hold, the last of a name counting.
pub open spec fn named_contents(fields: Seq<(String, serde_json::Value)>) -> Map<
    Seq<char>,
    JsonModel,
>
    decreases fields.len(),
{
    if fields.len() == 0 {
        Map::empty()
    } else {
        named_contents(fields.drop_last()).insert(
            fields.last().0@,
            value_contents(fields.last().1),
        )
    }
}

/// No two named children share a name.
pub open spec fn distinct_names(fields: Seq<(String, serde_json::Value)>) -> bool {
    forall|i: int, j: int|
        0 <= i < j < fields.len() ==> (#[trigger] fields[i]).0@ != (#[trigger] fields[j]).0@
}

/// What a value with this top level holds.
pub open spec fn shape_contents(shape: ValueShape) -> JsonModel {
    match shape {
        ValueShape::Null => JsonModel::Null,
        ValueShape::Bool(b) => JsonModel::Bool(b),
        ValueShape::Number(n) => JsonModel::Number(n@),
        ValueShape::Text(s) => JsonModel::Text(s@),
        ValueShape::Array(items) => JsonModel::Array(values_contents(items@)),
        ValueShape::Object(fields) => JsonModel::Object(named_contents(fields@)),
    }
}

/// `serde_json::from_str` into a `serde_json::Value`. The contract names what
/// the parser reads and says when it refuses a text; it does not describe
/// the JSON grammar.
#[verifier::external_body]
fn read_value(text: &str) -> (r: Option<serde_json::Value>)
    ensures
        match r {
            Some(value) => json_of_text(text@) == Some(value_contents(value)),
            None => json_of_text(text@) is None,
        },
{
    serde_json::from_str::<serde_json::Value>(text).ok()
}

/// Whether arrays and objects nest at most `levels` deep.
pub open spec fn nests_within(model: JsonModel, levels: nat) -> bool
    decreases levels,
{
    match model {
        JsonModel::Array(items) => levels > 0 && forall|i: int|
            0 <= i < items.len() ==> nests_within(#[trigger] items[i], (levels - 1) as nat),
        JsonModel::Object(fields) => levels > 0 && forall|k: Seq<char>|
            fields.contains_key(k) ==> nests_within(#[trigger] fields[k], (levels - 1) as nat),
        _ => true,
    }
}

/// The deepest nesting that the parser of `serde_json` takes.
pub const MAX_NESTING: usize = 127;

/// The `to_string` of a `serde_json::Value`, which writes compact JSON. The
/// contract names the text, says that it is one line, as line feeds inside
/// strings are escaped, and that `serde_json::from_str` reads the value back,
/// unless it nests deeper than the parser allows.
#[verifier::external_body]
fn write_value(value: &serde_json::Value) -> (r: String)
    ensures
        r@ == text_of_json(value_contents(*value)),
        !r@.contains('\n'),
        nests_within(value_contents(*value), MAX_NESTING as nat) ==> json_of_text(r@) == Some(
            value_contents(*value),
        ),
{
    value.to_string()
}

/// Takes the variants of `serde_json::Value` apart. The contract says that
/// nothing of what the value holds is lost or changed, and that the fields
/// that come out of a `serde_json::Map` have different names.
#[verifier::external_body]
fn open_value(value: serde_json::Value) -> (r: ValueShape)
    ensures
        shape_contents(r) == value_contents(value),
        r matches ValueShape::Object(fields) ==> distinct_names(fields@),
{
    match value {
        serde_json::Value::Null => ValueShape::Null,
        serde_json::Value::Bool(b) => ValueShape::Bool(b),
        serde_json::Value::Number(n) => ValueShape::Number(JsonNumber::Other(n)),
        serde_json::Value::String(s) => ValueShape::Text(s),
        serde_json::Value::Array(items) => ValueShape::Array(items),
        serde_json::Value::Object(fields) => ValueShape::Object(fields.into_iter().collect()),
    }
}

/// Puts a `serde_json::Value` together from one level, whose fields have
/// different names. The contract says that the value holds what the level
/// holds.
#[verifier::external_body]
fn close_value(shape: ValueShape) -> (r: serde_json::Value)
    requires
        shape matches ValueShape::Object(fields) ==> distinct_names(fields@),
    ensures
        value_contents(r) == shape_contents(shape),
{
    match shape {
        ValueShape::Null => serde_json::Value::Null,
        ValueShape::Bool(b) => serde_json::Value::Bool(b),
        ValueShape::Number(JsonNumber::Unsigned(n)) => serde_json::Value::from(n),
        ValueShape::Number(JsonNumber::Signed(n)) => serde_json::Value::from(n),
        ValueShape::Number(JsonNumber::Other(n)) => serde_json::Value::Number(n),
        ValueShape::Text(s) => serde_json::Value::String(s),
        ValueShape::Array(items) => serde_json::Value::Array(items),
        ValueShape::Object(fields) => serde_json::Value::Object(fields.into_iter().collect()),
    }
}

/// A JSON number as plain data.
pub enum NumberParts {
    Unsigned(u64),
    Negative(i64),
    Decimal(String),
}

impl View for NumberParts {
    type V = NumberModel;

    open spec fn view(&self) -> NumberModel {
        match self {
            NumberParts::Unsigned(n) => NumberModel::Unsigned(*n),
            NumberParts::Negative(n) => NumberModel::Negative(*n),
            NumberParts::Decimal(text) => NumberModel::Decimal(text@),
        }
    }
}

/// Tells the forms of a `serde_json::Number` apart by `as_u64` and `as_i64`;
/// one that is no integer is given by its `to_string`. The contract says that
/// the result is what the number holds.
#[verifier::external_body]
fn open_number(number: &serde_json::Number) -> (r: NumberParts)
    ensures
        r@ == number_contents(*number),
{
    match (number.as_u64(), number.as_i64()) {
        (Some(n), _) => NumberParts::Unsigned(n),
        (None, Some(n)) => NumberParts::Negative(n),
        (None, None) => NumberParts::Decimal(number.to_string()),
    }
}

/// The `clone` of a `serde_json::Number`, which gives the same number.
pub assume_specification[ <serde_json::Number as Clone>::clone ](
    number: &serde_json::Number,
) -> (r: serde_json::Number)
    ensures
        r == *number,
;

impl JsonNumber {
    /// The number as plain data.
    pub fn parts(&self) -> (r: NumberParts)
        ensures
            r@ == self@,
    {
        match self {
            JsonNumber::Unsigned(n) => NumberParts::Unsigned(*n),
            JsonNumber::Signed(n) => {
                if *n < 0 {
                    NumberParts::Negative(*n)
                } else {
                    NumberParts::Unsigned(*n as u64)
                }
            },
            JsonNumber::Other(n) => open_number(n),
        }
    }
}

impl Clone for JsonNumber {
    fn clone(&self) -> (r: Self)
        ensures
            r@ == self@,
    {
        match self {
            JsonNumber::Unsigned(n) => JsonNumber::Unsigned(*n),
            JsonNumber::Signed(n) => JsonNumber::Signed(*n),
            JsonNumber::Other(n) => JsonNumber::Other(n.clone()),
        }
    }
}

/// The model of an array holds the models of its elements.
pub proof fn items_model_index(items: Seq<Json>)
    ensures
        items_model(items).len() == items.len(),
        forall|i: int| 0 <= i < items.len() ==> #[trigger] items_model(items)[i] == json_model(items[i]),
    decreases items.len(),
{
    if items.len() > 0 {
        items_model_index(items.drop_last());
    }
}

/// The position of the last field named `key`, or -1.
spec fn last_named(fields: Seq<(String, Json)>, key: Seq<char>) -> int
    decreases fields.len(),
{
    if fields.len() == 0 {
        -1
    } else if fields.last().0@ == key {
        fields.len() - 1
    } else {
        last_named(fields.drop_last(), key)
    }
}

proof fn last_named_field(fields: Seq<(String, Json)>, key: Seq<char>)
    ensures
        -1 <= last_named(fields, key) < fields.len(),
        fields_model(fields).contains_key(key) <==> last_named(fields, key) >= 0,
        last_named(fields, key) >= 0 ==> fields_model(fields)[key] == json_model(
            fields[last_named(fields, key)].1,
        ),
    decreases fields.len(),
{
    if fields.len() > 0 {
        last_named_field(fields.drop_last(), key);
    }
}

proof fn fields_model_finite(fields: Seq<(String, Json)>)
    ensures
        fields_model(fields).dom().finite(),
    decreases fields.len(),
{
    if fields.len() > 0 {
        fields_model_finite(fields.drop_last());
    }
}

/// The model of no fields, and of no others, is empty.
pub proof fn fields_model_empty(fields: Seq<(String, Json)>)
    ensures
        fields_model(fields) == Map::<Seq<char>, JsonModel>::empty() <==> fields.len() == 0,
{
    if fields.len() > 0 {
        assert(fields_model(fields).contains_key(fields.last().0@));
    }
}

/// The field `key` of an object.
pub open spec fn field(model: JsonModel, key: Seq<char>) -> Option<JsonModel> {
    match model {
        JsonModel::Object(fields) => if fields.contains_key(key) {
            Some(fields[key])
        } else {
            None
        },
        _ => None,
    }
}

/// The model of an optional value.
pub open spec fn optional(json: Option<&Json>) -> Option<JsonModel> {
    match json {
        Some(json) => Some(json@),
        None => None,
    }
}

/// The text of a string value.
pub open spec fn as_text(model: JsonModel) -> Option<Seq<char>> {
    match model {
        JsonModel::Text(s) => Some(s),
        _ => None,
    }
}

/// The number of a value that is a whole number of at least zero.
pub open spec fn as_u64(model: JsonModel) -> Option<u64> {
    match model {
        JsonModel::Number(NumberModel::Unsigned(n)) => Some(n),
        _ => None,
    }
}

/// The texts of an array of strings.
pub open spec fn as_texts(model: JsonModel) -> Option<Seq<Seq<char>>> {
    match model {
        JsonModel::Array(items) => if forall|i: int|
            0 <= i < items.len() ==> #[trigger] items[i] is Text {
            Some(items.map_values(|m: JsonModel| m->Text_0))
        } else {
            None
        },
        _ => None,
    }
}

/// Whether a value is an object whose fields are all among some names.
pub open spec fn has_only(model: JsonModel, names: Seq<Seq<char>>) -> bool {
    match model {
        JsonModel::Object(fields) => forall|key: Seq<char>| #[trigger]
            fields.contains_key(key) ==> names.contains(key),
        _ => false,
    }
}

/// The bits of the 64-bit floating-point number that `serde_json` takes a
/// number for, `None` where it takes it for none.
pub uninterp spec fn float_bits(number: NumberModel) -> Option<u64>;

/// `serde_json::Number::as_f64`, by the bits of the result. The contract names
/// them and says nothing of how a number is rounded.
#[verifier::external_body]
fn bits_of(number: &JsonNumber) -> (r: Option<u64>)
    ensures
        r == float_bits(number@),
{
    let float = match number {
        JsonNumber::Unsigned(n) => serde_json::Number::from(*n).as_f64(),
        JsonNumber::Signed(n) => serde_json::Number::from(*n).as_f64(),
        JsonNumber::Other(n) => n.as_f64(),
    };
    float.map(|value| value.to_bits())
}

/// The text of the string field `key` of an object.
pub open spec fn text_field(model: JsonModel, key: Seq<char>) -> Option<Seq<char>> {
    match field(model, key) {
        Some(m) => as_text(m),
        None => None,
    }
}

/// The whole number in the field `key` of an object.
pub open spec fn u64_field(model: JsonModel, key: Seq<char>) -> Option<u64> {
    match field(model, key) {
        Some(m) => as_u64(m),
        None => None,
    }
}

/// The field `key` of an object, null where there is none.
pub open spec fn field_or_null(model: JsonModel, key: Seq<char>) -> JsonModel {
    match field(model, key) {
        Some(m) => m,
        None => JsonModel::Null,
    }
}

impl Json {
    /// The field `key` of an object, or `None` of anything else.
    pub fn get(&self, key: &str) -> (r: Option<&Json>)
        ensures
            optional(r) == field(self@, key@),
    {
        match self {
            Json::Object(fields) => {
                let mut n: usize = fields.len();
                assert(fields@.take(n as int) =~= fields@);
                while n > 0
                    invariant
                        n <= fields.len(),
                        *self == Json::Object(*fields),
                        last_named(fields@, key@) == last_named(fields@.take(n as int), key@),
                    decreases n,
                {
                    assert(fields@.take(n as int).drop_last() =~= fields@.take(n - 1));
                    if same_text(fields[n - 1].0.as_str(), key) {
                        proof {
                            last_named_field(fields@, key@);
                        }
                        return Some(&fields[n - 1].1);
                    }
                    n -= 1;
                }
                proof {
                    last_named_field(fields@, key@);
                }
                None
            },
            _ => None,
        }
    }

    /// The text of a string.
    pub fn as_str(&self) -> (r: Option<&str>)
        ensures
            match r {
                Some(s) => as_text(self@) == Some(s@),
                None => as_text(self@) is None,
            },
    {
        match self {
            Json::Text(s) => Some(s.as_str()),
            _ => None,
        }
    }

    /// The number of a whole number of at least zero.
    pub fn as_u64(&self) -> (r: Option<u64>)
        ensures
            r == as_u64(self@),
    {
        match self {
            Json::Number(n) => match n.parts() {
                NumberParts::Unsigned(n) => Some(n),
                _ => None,
            },
            _ => None,
        }
    }

    /// The elements of an array.
    pub fn as_array(&self) -> (r: Option<&Vec<Json>>)
        ensures
            match r {
                Some(items) => self@ == JsonModel::Array(items_model(items@)),
                None => !(self@ is Array),
            },
    {
        match self {
            Json::Array(items) => Some(items),
            _ => None,
        }
    }

    /// The texts of an array of strings.
    pub fn as_texts(&self) -> (r: Option<Vec<String>>)
        ensures
            (match r {
                Some(list) => Some(text::texts(list@)),
                None => None,
            }) == as_texts(self@),
    {
        let items = self.as_array()?;
        let ghost all = items_model(items@);
        let mut out: Vec<String> = Vec::new();
        let mut i: usize = 0;
        proof {
            items_model_index(items@);
        }
        while i < items.len()
            invariant
                i <= items.len(),
                all == items_model(items@),
                all.len() == items.len(),
                forall|j: int| 0 <= j < items.len() ==> #[trigger] all[j] == items@[j]@,
                self@ == JsonModel::Array(all),
                out.len() == i,
                forall|j: int| 0 <= j < i ==> #[trigger] all[j] == JsonModel::Text(out@[j]@),
            decreases items.len() - i,
        {
            match items[i].as_str() {
                Some(s) => {
                    out.push(s.to_owned());
                },
                None => {
                    assert(!(all[i as int] is Text));
                    return None;
                },
            }
            i += 1;
        }
        assert(text::texts(out@) =~= all.map_values(|m: JsonModel| m->Text_0));
        Some(out)
    }

    /// The bits of a number as a 64-bit floating-point number.
    pub fn as_float_bits(&self) -> (r: Option<u64>)
        ensures
            r == (match self@ {
                JsonModel::Number(n) => float_bits(n),
                _ => None,
            }),
    {
        match self {
            Json::Number(n) => bits_of(n),
            _ => None,
        }
    }

    /// Whether this is an object whose fields are all among `names`.
    pub fn has_only(&self, names: &Vec<String>) -> (r: bool)
        ensures
            r == has_only(self@, text::texts(names@)),
    {
        let fields = match self {
            Json::Object(fields) => fields,
            _ => {
                return false;
            },
        };
        let ghost model = fields_model(fields@);
        let mut i: usize = 0;
        while i < fields.len()
            invariant
                i <= fields.len(),
                self@ == JsonModel::Object(model),
                model == fields_model(fields@),
                forall|j: int|
                    0 <= j < i ==> text::texts(names@).contains((#[trigger] fields@[j]).0@),
            decreases fields.len() - i,
        {
            if !contains_text(names, fields[i].0.as_str()) {
                proof {
                    fields_model_names(fields@, fields@[i as int].0@);
                    let key = fields@[i as int].0@;
                    assert(model.contains_key(key) && !text::texts(names@).contains(key));
                    assert(self@->Object_0.contains_key(key));
                    assert(!has_only(self@, text::texts(names@)));
                }
                return false;
            }
            i += 1;
        }
        proof {
            assert forall|key: Seq<char>| #[trigger] model.contains_key(key) implies text::texts(
                names@,
            ).contains(key) by {
                fields_model_names(fields@, key);
            }
        }
        true
    }

    /// Whether this is null.
    pub fn is_null(&self) -> (r: bool)
        ensures
            r == (self@ is Null),
    {
        match self {
            Json::Null => true,
            _ => false,
        }
    }

    /// A copy of the string in the field `key`.
    pub fn text_at(&self, key: &str) -> (r: Option<String>)
        ensures
            match r {
                Some(s) => text_field(self@, key@) == Some(s@),
                None => text_field(self@, key@) is None,
            },
    {
        match self.get(key) {
            Some(value) => match value.as_str() {
                Some(s) => Some(s.to_owned()),
                None => None,
            },
            None => None,
        }
    }

    /// The whole number in the field `key`.
    pub fn u64_at(&self, key: &str) -> (r: Option<u64>)
        ensures
            r == u64_field(self@, key@),
    {
        match self.get(key) {
            Some(value) => value.as_u64(),
            None => None,
        }
    }

    /// A copy of the field `key`, null where there is none.
    pub fn at_or_null(&self, key: &str) -> (r: Json)
        ensures
            r@ == field_or_null(self@, key@),
    {
        match self.get(key) {
            Some(value) => value.clone(),
            None => Json::Null,
        }
    }

    /// A string value.
    pub fn text(s: &str) -> (r: Json)
        ensures
            r@ == JsonModel::Text(s@),
    {
        Json::Text(s.to_owned())
    }

    /// A whole number of at least zero.
    pub fn unsigned(n: u64) -> (r: Json)
        ensures
            r@ == JsonModel::Number(NumberModel::Unsigned(n)),
    {
        Json::Number(JsonNumber::Unsigned(n))
    }

    /// An object without fields.
    pub fn empty_object() -> (r: Json)
        ensures
            r@ == JsonModel::Object(Map::empty()),
    {
        Json::Object(Vec::new())
    }

    /// The object with one more field; anything else becomes an object with
    /// that one field.
    pub fn with(self, key: &str, value: Json) -> (r: Json)
        ensures
            r@ == JsonModel::Object(
                match self@ {
                    JsonModel::Object(fields) => fields,
                    _ => Map::empty(),
                }.insert(key@, value@),
            ),
    {
        let mut fields: Vec<(String, Json)> = match self {
            Json::Object(fields) => fields,
            _ => Vec::new(),
        };
        let ghost before = fields@;
        assert(fields_model(before) == match self@ {
            JsonModel::Object(fields) => fields,
            _ => Map::empty(),
        });
        fields.push((key.to_owned(), value));
        assert(fields@.drop_last() =~= before);
        Json::Object(fields)
    }
}

impl Clone for Json {
    fn clone(&self) -> (r: Self)
        ensures
            r@ == self@,
        decreases self,
    {
        match self {
            Json::Null => Json::Null,
            Json::Bool(b) => Json::Bool(*b),
            Json::Number(n) => Json::Number(n.clone()),
            Json::Text(s) => Json::Text(s.clone()),
            Json::Array(items) => {
                let mut out: Vec<Json> = Vec::new();
                let mut i: usize = 0;
                while i < items.len()
                    invariant
                        i <= items.len(),
                        items_model(out@) == items_model(items@.take(i as int)),
                        *self == Json::Array(*items),
                    decreases items.len() - i,
                {
                    assert(decreases_to!(self => self->Array_0));
                    assert(decreases_to!(items => items[i as int]));
                    let copy = items[i].clone();
                    let ghost before = out@;
                    out.push(copy);
                    i += 1;
                    assert(out@.drop_last() =~= before);
                    assert(items@.take(i as int).drop_last() =~= items@.take(i - 1));
                }
                assert(items@.take(i as int) =~= items@);
                Json::Array(out)
            },
            Json::Object(fields) => {
                let mut out: Vec<(String, Json)> = Vec::new();
                let mut i: usize = 0;
                while i < fields.len()
                    invariant
                        i <= fields.len(),
                        fields_model(out@) == fields_model(fields@.take(i as int)),
                        *self == Json::Object(*fields),
                    decreases fields.len() - i,
                {
                    assert(decreases_to!(self => self->Object_0));
                    assert(decreases_to!(fields => fields[i as int]));
                    assert(decreases_to!(fields[i as int] => fields[i as int].1));
                    let copy = fields[i].1.clone();
                    let ghost before = out@;
                    out.push((fields[i].0.clone(), copy));
                    i += 1;
                    assert(out@.drop_last() =~= before);
                    assert(fields@.take(i as int).drop_last() =~= fields@.take(i - 1));
                }
                assert(fields@.take(i as int) =~= fields@);
                Json::Object(out)
            },
        }
    }
}

proof fn named_contents_index(fields: Seq<(String, serde_json::Value)>)
    requires
        distinct_names(fields),
    ensures
        named_contents(fields).dom().finite(),
        forall|i: int|
            0 <= i < fields.len() ==> named_contents(fields).contains_key((#[trigger] fields[i]).0@)
                && named_contents(fields)[fields[i].0@] == value_contents(fields[i].1),
    decreases fields.len(),
{
    if fields.len() > 0 {
        let head = fields.drop_last();
        assert forall|i: int, j: int| 0 <= i < j < head.len() implies (#[trigger] head[i]).0@ != (
        #[trigger] head[j]).0@ by {
            assert(head[i] == fields[i] && head[j] == fields[j]);
        }
        named_contents_index(head);
        assert forall|i: int| 0 <= i < fields.len() implies named_contents(fields).contains_key(
            (#[trigger] fields[i]).0@,
        ) && named_contents(fields)[fields[i].0@] == value_contents(fields[i].1) by {
            if i < head.len() {
                assert(head[i] == fields[i]);
                assert(fields[i].0@ != fields[fields.len() - 1].0@);
            }
        }
    }
}

/// The plain form of a `serde_json::Value`.
pub(crate) fn json_from_value(value: serde_json::Value) -> (r: Json)
    ensures
        r@ == value_contents(value),
    decreases value_contents(value),
{
    let ghost whole = value_contents(value);
    match open_value(value) {
        ValueShape::Null => Json::Null,
        ValueShape::Bool(b) => Json::Bool(b),
        ValueShape::Number(n) => Json::Number(n),
        ValueShape::Text(s) => Json::Text(s),
        ValueShape::Array(items) => {
            let mut out: Vec<Json> = Vec::new();
            let ghost all = items@;
            let ghost models = values_contents(all);
            assert(items_model(out@) =~= models.take(0));
            for item in it: items
                invariant
                    it.seq() == all,
                    models == values_contents(all),
                    whole == value_contents(value),
                    whole == JsonModel::Array(models),
                    items_model(out@) == models.take(it.index()),
            {
                assert(decreases_to!(whole => whole->Array_0));
                assert(decreases_to!(models => models[it.index()]));
                assert(models[it.index()] == value_contents(item));
                let ghost before = out@;
                out.push(json_from_value(item));
                assert(out@.drop_last() =~= before);
                assert(models.take(it.index() + 1) =~= models.take(it.index()).push(
                    models[it.index()],
                ));
            }
            assert(models.take(all.len() as int) =~= models);
            Json::Array(out)
        },
        ValueShape::Object(fields) => {
            let mut out: Vec<(String, Json)> = Vec::new();
            let ghost all = fields@;
            proof {
                named_contents_index(all);
            }
            let ghost model = named_contents(all);
            assert(all.take(0) =~= Seq::empty());
            for pair in it: fields
                invariant
                    it.seq() == all,
                    model == named_contents(all),
                    whole == value_contents(value),
                    whole == JsonModel::Object(model),
                    model.dom().finite(),
                    forall|i: int|
                        0 <= i < all.len() ==> model.contains_key((#[trigger] all[i]).0@)
                            && model[all[i].0@] == value_contents(all[i].1),
                    fields_model(out@) == named_contents(all.take(it.index())),
            {
                assert(decreases_to!(whole => whole->Object_0));
                assert(all[it.index()] == pair);
                assert(decreases_to!(model => model[pair.0@]));
                let ghost before = out@;
                let (name, child) = pair;
                out.push((name, json_from_value(child)));
                assert(out@.drop_last() =~= before);
                let ghost next = all.take(it.index() + 1);
                assert(next.drop_last() =~= all.take(it.index()));
            }
            assert(all.take(all.len() as int) =~= all);
            Json::Object(out)
        },
    }
}

/// The names of the fields from the place `start` on.
spec fn names_from(fields: Seq<(String, Json)>, start: int) -> Set<Seq<char>> {
    Set::new(
        |name: Seq<char>|
            exists|j: int| start <= j < fields.len() && (#[trigger] fields[j]).0@ == name,
    )
}

/// Whether a field from the place `start` on has a name.
fn named_from(fields: &Vec<(String, Json)>, start: usize, name: &str) -> (r: bool)
    requires
        start <= fields.len(),
    ensures
        r == names_from(fields@, start as int).contains(name@),
{
    let mut j: usize = start;
    while j < fields.len()
        invariant
            start <= j <= fields.len(),
            forall|k: int| start <= k < j ==> (#[trigger] fields@[k]).0@ != name@,
        decreases fields.len() - j,
    {
        if same_text(fields[j].0.as_str(), name) {
            return true;
        }
        j += 1;
    }
    false
}

/// The `serde_json::Value` of a plain value: of two fields with one name the
/// last counts.
fn value_from_json(json: &Json) -> (r: serde_json::Value)
    ensures
        value_contents(r) == json@,
    decreases json,
{
    match json {
        Json::Null => close_value(ValueShape::Null),
        Json::Bool(b) => close_value(ValueShape::Bool(*b)),
        Json::Number(n) => close_value(ValueShape::Number(n.clone())),
        Json::Text(s) => close_value(ValueShape::Text(s.clone())),
        Json::Array(items) => {
            let mut out: Vec<serde_json::Value> = Vec::new();
            let mut i: usize = 0;
            assert(values_contents(out@) =~= items_model(items@.take(0)));
            while i < items.len()
                invariant
                    i <= items.len(),
                    *json == Json::Array(*items),
                    values_contents(out@) == items_model(items@.take(i as int)),
                decreases items.len() - i,
            {
                assert(decreases_to!(json => json->Array_0));
                assert(decreases_to!(items => items[i as int]));
                let ghost before = out@;
                out.push(value_from_json(&items[i]));
                i += 1;
                assert(items@.take(i as int).drop_last() =~= items@.take(i - 1));
                assert(values_contents(out@) =~= values_contents(before).push(
                    value_contents(out@.last()),
                ));
            }
            assert(items@.take(i as int) =~= items@);
            close_value(ValueShape::Array(out))
        },
        Json::Object(fields) => {
            let mut out: Vec<(String, serde_json::Value)> = Vec::new();
            let mut i: usize = 0;
            assert(named_contents(out@) =~= fields_model(fields@.take(0)).remove_keys(
                names_from(fields@, 0),
            ));
            while i < fields.len()
                invariant
                    i <= fields.len(),
                    *json == Json::Object(*fields),
                    distinct_names(out@),
                    named_contents(out@) == fields_model(fields@.take(i as int)).remove_keys(
                        names_from(fields@, i as int),
                    ),
                decreases fields.len() - i,
            {
                assert(decreases_to!(json => json->Object_0));
                assert(decreases_to!(fields => fields[i as int]));
                assert(decreases_to!(fields[i as int] => fields[i as int].1));
                let ghost before = out@;
                let ghost name = fields@[i as int].0@;
                let ghost later = names_from(fields@, i + 1);
                assert(names_from(fields@, i as int) =~= later.insert(name));
                proof {
                    named_contents_index(before);
                }
                if !named_from(fields, i + 1, fields[i].0.as_str()) {
                    out.push((fields[i].0.clone(), value_from_json(&fields[i].1)));
                    assert(out@.drop_last() =~= before);
                    assert forall|j: int| 0 <= j < before.len() implies (
                    #[trigger] before[j]).0@ != name by {
                        assert(named_contents(before).contains_key(before[j].0@));
                    }
                }
                i += 1;
                assert(fields@.take(i as int).drop_last() =~= fields@.take(i - 1));
                assert(named_contents(out@) =~= fields_model(fields@.take(i as int)).remove_keys(
                    later,
                ));
            }
            assert(fields@.take(i as int) =~= fields@);
            assert(named_contents(out@) =~= fields_model(fields@));
            close_value(ValueShape::Object(out))
        },
    }
}

/// Read one JSON value from a text, or `None` where the text is no JSON.
pub fn parse_json(text: &str) -> (r: Option<Json>)
    ensures
        match r {
            Some(json) => json_of_text(text@) == Some(json@),
            None => json_of_text(text@) is None,
        },
{
    match read_value(text) {
        Some(value) => Some(json_from_value(value)),
        None => None,
    }
}

/// Write a value as compact JSON, on one line.
pub fn render_json(json: &Json) -> (r: String)
    ensures
        r@ == text_of_json(json@),
        !r@.contains('\n'),
        nests_within(json@, MAX_NESTING as nat) ==> json_of_text(r@) == Some(json@),
{
    write_value(&value_from_json(json))
}

/// The text of a decimal zero, of either sign.
pub open spec fn zero_text(text: Seq<char>) -> bool {
    text == "0.0"@ || text == "-0.0"@
}

/// Whether two numbers are the same; the two decimal zeros are.
pub open spec fn number_eq(a: NumberModel, b: NumberModel) -> bool {
    match (a, b) {
        (NumberModel::Decimal(x), NumberModel::Decimal(y)) => x == y || (zero_text(x) && zero_text(
            y,
        )),
        _ => a == b,
    }
}

/// Whether two values are the same: equal leaf by leaf, whatever the order of
/// the fields of their objects.
pub open spec fn json_eq(a: JsonModel, b: JsonModel) -> bool
    decreases a,
{
    match (a, b) {
        (JsonModel::Number(x), JsonModel::Number(y)) => number_eq(x, y),
        (JsonModel::Array(x), JsonModel::Array(y)) => x.len() == y.len() && forall|i: int|
            0 <= i < x.len() ==> json_eq(#[trigger] x[i], y[i]),
        (JsonModel::Object(x), JsonModel::Object(y)) => x.dom() == y.dom() && forall|k: Seq<char>|
            x.contains_key(k) ==> json_eq(#[trigger] x[k], y[k]),
        _ => a == b,
    }
}

proof fn fields_model_names(fields: Seq<(String, Json)>, key: Seq<char>)
    ensures
        fields_model(fields).contains_key(key) <==> exists|i: int|
            0 <= i < fields.len() && (#[trigger] fields[i]).0@ == key,
    decreases fields.len(),
{
    if fields.len() > 0 {
        let head = fields.drop_last();
        fields_model_names(head, key);
        if fields_model(head).contains_key(key) {
            let i = choose|i: int| 0 <= i < head.len() && (#[trigger] head[i]).0@ == key;
            assert(fields[i].0@ == key);
        }
        if exists|i: int| 0 <= i < fields.len() && (#[trigger] fields[i]).0@ == key {
            let i = choose|i: int| 0 <= i < fields.len() && (#[trigger] fields[i]).0@ == key;
            if i < head.len() {
                assert(head[i].0@ == key);
            }
        }
    }
}

fn is_zero_text(text: &str) -> (r: bool)
    ensures
        r == zero_text(text@),
{
    same_text(text, "0.0") || same_text(text, "-0.0")
}

fn same_number(a: &JsonNumber, b: &JsonNumber) -> (r: bool)
    ensures
        r == number_eq(a@, b@),
{
    match (a.parts(), b.parts()) {
        (NumberParts::Unsigned(x), NumberParts::Unsigned(y)) => x == y,
        (NumberParts::Negative(x), NumberParts::Negative(y)) => x == y,
        (NumberParts::Decimal(x), NumberParts::Decimal(y)) => same_text(x.as_str(), y.as_str()) || (
        is_zero_text(x.as_str()) && is_zero_text(y.as_str())),
        _ => false,
    }
}

/// Whether two values are the same.
pub fn same_json(a: &Json, b: &Json) -> (r: bool)
    ensures
        r == json_eq(a@, b@),
    decreases a@,
{
    match (a, b) {
        (Json::Null, Json::Null) => true,
        (Json::Bool(x), Json::Bool(y)) => *x == *y,
        (Json::Number(x), Json::Number(y)) => same_number(x, y),
        (Json::Text(x), Json::Text(y)) => same_text(x.as_str(), y.as_str()),
        (Json::Array(x), Json::Array(y)) => {
            proof {
                items_model_index(x@);
                items_model_index(y@);
            }
            let ghost ma = items_model(x@);
            let ghost mb = items_model(y@);
            if x.len() != y.len() {
                return false;
            }
            let mut i: usize = 0;
            while i < x.len()
                invariant
                    i <= x.len(),
                    x.len() == y.len(),
                    x.len() == ma.len(),
                    y.len() == mb.len(),
                    a@ == JsonModel::Array(ma),
                    b@ == JsonModel::Array(mb),
                    forall|j: int| 0 <= j < x.len() ==> #[trigger] ma[j] == json_model(x@[j]),
                    forall|j: int| 0 <= j < y.len() ==> #[trigger] mb[j] == json_model(y@[j]),
                    forall|j: int| 0 <= j < i ==> json_eq(#[trigger] ma[j], mb[j]),
                decreases x.len() - i,
            {
                let ghost whole = a@;
                assert(decreases_to!(whole => whole->Array_0));
                assert(decreases_to!(ma => ma[i as int]));
                assert(ma[i as int] == x@[i as int]@);
                assert(mb[i as int] == y@[i as int]@);
                if !same_json(&x[i], &y[i]) {
                    assert(!json_eq(ma[i as int], mb[i as int]));
                    return false;
                }
                i += 1;
            }
            true
        },
        (Json::Object(x), Json::Object(y)) => {
            let ghost ma = fields_model(x@);
            let ghost mb = fields_model(y@);
            proof {
                fields_model_finite(x@);
            }
            let mut i: usize = 0;
            while i < x.len()
                invariant
                    i <= x.len(),
                    ma == fields_model(x@),
                    mb == fields_model(y@),
                    ma.dom().finite(),
                    a@ == JsonModel::Object(ma),
                    b@ == JsonModel::Object(mb),
                    forall|j: int|
                        0 <= j < i ==> mb.contains_key((#[trigger] x@[j]).0@) && json_eq(
                            ma[x@[j].0@],
                            mb[x@[j].0@],
                        ),
                decreases x.len() - i,
            {
                let name = x[i].0.as_str();
                let ghost key = name@;
                proof {
                    fields_model_names(x@, key);
                    assert(x@[i as int].0@ == key);
                }
                match (a.get(name), b.get(name)) {
                    (Some(u), Some(v)) => {
                        let ghost whole = a@;
                        assert(decreases_to!(whole => whole->Object_0));
                        assert(decreases_to!(ma => ma[key]));
                        if !same_json(u, v) {
                            assert(!json_eq(ma[key], mb[key]));
                            return false;
                        }
                    },
                    _ => {
                        assert(ma.dom().contains(key) && !mb.dom().contains(key));
                        return false;
                    },
                }
                i += 1;
            }
            let mut k: usize = 0;
            while k < y.len()
                invariant
                    k <= y.len(),
                    ma == fields_model(x@),
                    mb == fields_model(y@),
                    a@ == JsonModel::Object(ma),
                    b@ == JsonModel::Object(mb),
                    forall|j: int| 0 <= j < k ==> ma.contains_key((#[trigger] y@[j]).0@),
                decreases y.len() - k,
            {
                let name = y[k].0.as_str();
                if a.get(name).is_none() {
                    proof {
                        fields_model_names(y@, name@);
                        assert(y@[k as int].0@ == name@);
                        assert(mb.dom().contains(name@) && !ma.dom().contains(name@));
                    }
                    return false;
                }
                k += 1;
            }
            proof {
                assert forall|key: Seq<char>| ma.contains_key(key) implies mb.contains_key(key)
                    && json_eq(#[trigger] ma[key], mb[key]) by {
                    fields_model_names(x@, key);
                }
                assert forall|key: Seq<char>| ma.dom().contains(key) == #[trigger] mb.dom().contains(
                    key,
                ) by {
                    fields_model_names(x@, key);
                    fields_model_names(y@, key);
                }
                assert(ma.dom() =~= mb.dom());
            }
            true
        },
        _ => false,
    }
}

/// Every value is the same as itself.
pub proof fn json_eq_reflexive(a: JsonModel)
    ensures
        json_eq(a, a),
    decreases a,
{
    match a {
        JsonModel::Array(x) => {
            assert forall|i: int| 0 <= i < x.len() implies json_eq(#[trigger] x[i], x[i]) by {
                json_eq_reflexive(x[i]);
            }
        },
        JsonModel::Object(x) => {
            assert forall|k: Seq<char>| x.contains_key(k) implies json_eq(#[trigger] x[k], x[k]) by {
                json_eq_reflexive(x[k]);
            }
        },
        _ => {},
    }
}

/// Sameness does not depend on the side.
pub proof fn json_eq_symmetric(a: JsonModel, b: JsonModel)
    requires
        json_eq(a, b),
    ensures
        json_eq(b, a),
    decreases a,
{
    match (a, b) {
        (JsonModel::Array(x), JsonModel::Array(y)) => {
            assert forall|i: int| 0 <= i < y.len() implies json_eq(#[trigger] y[i], x[i]) by {
                assert(json_eq(x[i], y[i]));
                json_eq_symmetric(x[i], y[i]);
            }
        },
        (JsonModel::Object(x), JsonModel::Object(y)) => {
            assert forall|k: Seq<char>| y.contains_key(k) implies json_eq(#[trigger] y[k], x[k]) by {
                assert(x.dom().contains(k));
                assert(json_eq(x[k], y[k]));
                json_eq_symmetric(x[k], y[k]);
            }
        },
        _ => {},
    }
}

/// Drop every field named `key`.
pub fn remove_field(fields: &mut Vec<(String, Json)>, key: &str)
    ensures
        fields_model(final(fields)@) == fields_model(old(fields)@).remove(key@),
{
    let mut kept: Vec<(String, Json)> = Vec::new();
    let ghost all = fields@;
    assert(all.take(0) =~= Seq::empty());
    assert(fields_model(kept@) =~= fields_model(all.take(0)).remove(key@));
    let mut rest: Vec<(String, Json)> = Vec::new();
    std::mem::swap(&mut rest, fields);
    for pair in it: rest
        invariant
            it.seq() == all,
            fields_model(kept@) == fields_model(all.take(it.index())).remove(key@),
    {
        let ghost next = all.take(it.index() + 1);
        assert(next.drop_last() =~= all.take(it.index()));
        let ghost before = kept@;
        if !same_text(pair.0.as_str(), key) {
            kept.push(pair);
            assert(kept@.drop_last() =~= before);
        }
        assert(fields_model(kept@) =~= fields_model(next).remove(key@));
    }
    assert(all.take(all.len() as int) =~= all);
    *fields = kept;
}

/// Set the field `key`, in place of any earlier one.
pub fn put_field(fields: &mut Vec<(String, Json)>, key: &str, value: Json)
    ensures
        fields_model(final(fields)@) == fields_model(old(fields)@).insert(key@, value@),
{
    remove_field(fields, key);
    let ghost before = fields@;
    fields.push((key.to_owned(), value));
    assert(fields@.drop_last() =~= before);
    assert(fields_model(fields@) =~= fields_model(old(fields)@).insert(key@, value@));
}

/// `base` with `patch` laid over it: objects merge field by field, anything
/// else is replaced.
pub open spec fn merged(base: JsonModel, patch: JsonModel) -> JsonModel
    decreases patch,
{
    match (base, patch) {
        (JsonModel::Object(b), JsonModel::Object(p)) => JsonModel::Object(
            Map::new(
                |k: Seq<char>| b.contains_key(k) || p.contains_key(k),
                |k: Seq<char>|
                    if p.contains_key(k) {
                        if b.contains_key(k) {
                            merged(b[k], p[k])
                        } else {
                            p[k]
                        }
                    } else {
                        b[k]
                    },
            ),
        ),
        _ => patch,
    }
}

/// Lay `patch` over `base`.
pub fn merge_json(base: &Json, patch: &Json) -> (r: Json)
    ensures
        r@ == merged(base@, patch@),
    decreases patch@,
{
    match (base, patch) {
        (Json::Object(x), Json::Object(y)) => {
            let ghost b = fields_model(x@);
            let ghost p = fields_model(y@);
            let mut out: Vec<(String, Json)> = match base.clone() {
                Json::Object(fields) => fields,
                _ => Vec::new(),
            };
            proof {
                fields_model_finite(y@);
                assert(y@.take(0) =~= Seq::empty());
            }
            let mut i: usize = 0;
            while i < y.len()
                invariant
                    i <= y.len(),
                    base@ == JsonModel::Object(b),
                    patch@ == JsonModel::Object(p),
                    b == fields_model(x@),
                    p == fields_model(y@),
                    p.dom().finite(),
                    forall|k: Seq<char>| #[trigger]
                        fields_model(out@).contains_key(k) <==> b.contains_key(k) || fields_model(
                            y@.take(i as int),
                        ).contains_key(k),
                    forall|k: Seq<char>|
                        fields_model(out@).contains_key(k) ==> #[trigger] fields_model(out@)[k] == (
                        if fields_model(y@.take(i as int)).contains_key(k) {
                            if b.contains_key(k) {
                                merged(b[k], p[k])
                            } else {
                                p[k]
                            }
                        } else {
                            b[k]
                        }),
                decreases y.len() - i,
            {
                let name = y[i].0.as_str();
                let ghost key = name@;
                proof {
                    fields_model_names(y@, key);
                    assert(y@[i as int].0@ == key);
                    assert(y@.take(i + 1).drop_last() =~= y@.take(i as int));
                }
                if let Some(v) = patch.get(name) {
                    let ghost whole = patch@;
                    assert(decreases_to!(whole => whole->Object_0));
                    assert(decreases_to!(p => p[key]));
                    let value = match base.get(name) {
                        Some(u) => merge_json(u, v),
                        None => v.clone(),
                    };
                    put_field(&mut out, name, value);
                }
                i += 1;
            }
            assert(y@.take(i as int) =~= y@);
            let r = Json::Object(out);
            proof {
                reveal_with_fuel(merged, 2);
                let m = merged(base@, patch@)->Object_0;
                assert forall|k: Seq<char>| #[trigger] m.contains_key(k) implies m[k]
                    == fields_model(out@)[k] by {
                    assert(fields_model(out@).contains_key(k));
                }
                assert(fields_model(out@) =~= m);
            }
            r
        },
        _ => patch.clone(),
    }
}

/// Two values are the same kind by kind: null and null, equal truth values,
/// equal texts, equal numbers, arrays that are the same place by place, and
/// objects that have the same names and are the same name by name. Values of
/// different kinds never are.
pub proof fn sameness_goes_by_kind(
    x: Seq<JsonModel>,
    y: Seq<JsonModel>,
    f: Map<Seq<char>, JsonModel>,
    g: Map<Seq<char>, JsonModel>,
    s: Seq<char>,
    t: Seq<char>,
    m: NumberModel,
    n: NumberModel,
    a: JsonModel,
    b: JsonModel,
)
    ensures
        json_eq(JsonModel::Text(s), JsonModel::Text(t)) <==> s == t,
        json_eq(JsonModel::Bool(true), JsonModel::Bool(true)),
        !json_eq(JsonModel::Bool(true), JsonModel::Bool(false)),
        !json_eq(JsonModel::Bool(false), JsonModel::Bool(true)),
        !(m is Decimal && n is Decimal) ==> (json_eq(JsonModel::Number(m), JsonModel::Number(n))
            <==> m == n),
        json_eq(JsonModel::Number(NumberModel::Decimal(s)), JsonModel::Number(NumberModel::Decimal(t)))
            <==> s == t || ((s == "0.0"@ || s == "-0.0"@) && (t == "0.0"@ || t == "-0.0"@)),
        json_eq(JsonModel::Array(x), JsonModel::Array(y)) <==> x.len() == y.len() && forall|i: int|
            0 <= i < x.len() ==> json_eq(#[trigger] x[i], y[i]),
        json_eq(JsonModel::Object(f), JsonModel::Object(g)) <==> (forall|k: Seq<char>| #[trigger]
            f.contains_key(k) <==> g.contains_key(k)) && forall|k: Seq<char>|
            f.contains_key(k) ==> json_eq(#[trigger] f[k], g[k]),
        json_eq(a, b) ==> (a is Null <==> b is Null) && (a is Bool <==> b is Bool) && (a is Number
            <==> b is Number) && (a is Text <==> b is Text) && (a is Array <==> b is Array) && (
        a is Object <==> b is Object),
{
    if forall|k: Seq<char>| #[trigger] f.contains_key(k) <==> g.contains_key(k) {
        assert forall|k: Seq<char>| #[trigger] f.dom().contains(k) <==> g.dom().contains(k) by {
            assert(f.contains_key(k) <==> g.contains_key(k));
        }
        assert(f.dom() =~= g.dom());
    }
    if f.dom() == g.dom() {
        assert forall|k: Seq<char>| #[trigger] f.contains_key(k) <==> g.contains_key(k) by {
            assert(f.dom().contains(k) <==> g.dom().contains(k));
        }
    }
}

/// A patch laid over an object changes the fields that it names and keeps the
/// others; a field that both have is merged where both hold objects and
/// replaced elsewhere. Anything but an object over an object replaces.
pub proof fn patches_change_what_they_name(
    base: Map<Seq<char>, JsonModel>,
    patch: Map<Seq<char>, JsonModel>,
    key: Seq<char>,
    a: JsonModel,
    b: JsonModel,
)
    ensures
        merged(JsonModel::Object(base), JsonModel::Object(patch)) matches JsonModel::Object(out) && (
        out.contains_key(key) <==> base.contains_key(key) || patch.contains_key(key)) && (
        !patch.contains_key(key) && base.contains_key(key) ==> out[key] == base[key]) && (
        patch.contains_key(key) && !base.contains_key(key) ==> out[key] == patch[key]) && (
        patch.contains_key(key) && base.contains_key(key) ==> out[key] == merged(
            base[key],
            patch[key],
        )),
        !(a is Object && b is Object) ==> merged(a, b) == b,
{
}

/// A field is read by its name from an object and from nothing else; a text, a
/// whole number of at least zero and a list of texts are read as such.
pub proof fn values_are_read_as_they_are(
    fields: Map<Seq<char>, JsonModel>,
    key: Seq<char>,
    other: JsonModel,
    items: Seq<JsonModel>,
)
    ensures
        fields.contains_key(key) ==> field(JsonModel::Object(fields), key) == Some(fields[key])
            && field_or_null(JsonModel::Object(fields), key) == fields[key],
        !fields.contains_key(key) ==> field(JsonModel::Object(fields), key) is None
            && field_or_null(JsonModel::Object(fields), key) is Null,
        !(other is Object) ==> field(other, key) is None,
        other matches JsonModel::Text(s) ==> as_text(other) == Some(s),
        !(other is Text) ==> as_text(other) is None,
        other matches JsonModel::Number(NumberModel::Unsigned(n)) ==> as_u64(other) == Some(n),
        !(other matches JsonModel::Number(NumberModel::Unsigned(_))) ==> as_u64(other) is None,
        as_texts(JsonModel::Array(items)) is Some <==> forall|i: int|
            0 <= i < items.len() ==> #[trigger] items[i] is Text,
        as_texts(JsonModel::Array(items)) matches Some(texts) ==> texts.len() == items.len()
            && forall|i: int|
            0 <= i < items.len() ==> items[i] == JsonModel::Text(#[trigger] texts[i]),
        !(other is Array) ==> as_texts(other) is None,
{
}

/// A value nests one level more than the deepest of what it holds; a leaf nests
/// in no level.
pub proof fn nesting_counts_levels(
    items: Seq<JsonModel>,
    fields: Map<Seq<char>, JsonModel>,
    leaf: JsonModel,
    levels: nat,
)
    ensures
        !(leaf is Array || leaf is Object) ==> nests_within(leaf, 0),
        !nests_within(JsonModel::Array(items), 0),
        !nests_within(JsonModel::Object(fields), 0),
        nests_within(JsonModel::Array(items), levels + 1) <==> forall|i: int|
            0 <= i < items.len() ==> nests_within(#[trigger] items[i], levels),
        nests_within(JsonModel::Object(fields), levels + 1) <==> forall|k: Seq<char>|
            fields.contains_key(k) ==> nests_within(#[trigger] fields[k], levels),
{
    let list = JsonModel::Array(items);
    let object = JsonModel::Object(fields);
    if nests_within(list, levels + 1) {
        assert forall|i: int| 0 <= i < items.len() implies nests_within(
            #[trigger] items[i],
            levels,
        ) by {
            assert(nests_within(list->Array_0[i], (levels + 1 - 1) as nat));
        }
    }
    if forall|i: int| 0 <= i < items.len() ==> nests_within(#[trigger] items[i], levels) {
        assert forall|i: int| 0 <= i < list->Array_0.len() implies nests_within(
            #[trigger] list->Array_0[i],
            (levels + 1 - 1) as nat,
        ) by {
            assert(nests_within(items[i], levels));
        }
        assert(nests_within(list, levels + 1));
    }
    if nests_within(object, levels + 1) {
        assert forall|k: Seq<char>| fields.contains_key(k) implies nests_within(
            #[trigger] fields[k],
            levels,
        ) by {
            assert(nests_within(object->Object_0[k], (levels + 1 - 1) as nat));
        }
    }
    if forall|k: Seq<char>| fields.contains_key(k) ==> nests_within(#[trigger] fields[k], levels) {
        assert forall|k: Seq<char>| object->Object_0.contains_key(k) implies nests_within(
            #[trigger] object->Object_0[k],
            (levels + 1 - 1) as nat,
        ) by {
            assert(nests_within(fields[k], levels));
        }
        assert(nests_within(object, levels + 1));
    }
}

/// A whole number is the same number whichever way it is kept.
pub proof fn whole_numbers_keep_their_value(n: u64, m: i64)
    ensures
        JsonNumber::Unsigned(n)@ == NumberModel::Unsigned(n),
        m >= 0 ==> JsonNumber::Signed(m)@ == NumberModel::Unsigned(m as u64),
        m < 0 ==> JsonNumber::Signed(m)@ == NumberModel::Negative(m),
{
}

/// An array shows its elements in order and an object its fields by name, the
/// last of a name counting.
pub proof fn values_show_what_they_hold(
    items: Seq<Json>,
    item: Json,
    fields: Seq<(String, Json)>,
    name: String,
    key: Seq<char>,
)
    ensures
        items_model(Seq::empty()).len() == 0,
        items_model(items.push(item)) == items_model(items).push(json_model(item)),
        !fields_model(Seq::empty()).contains_key(key),
        fields_model(fields.push((name, item))).contains_key(key) <==> key == name@ || fields_model(
            fields,
        ).contains_key(key),
        fields_model(fields.push((name, item)))[name@] == json_model(item),
        key != name@ && fields_model(fields).contains_key(key) ==> fields_model(
            fields.push((name, item)),
        )[key] == fields_model(fields)[key],
{
    assert(items.push(item).drop_last() =~= items);
    assert(fields.push((name, item)).drop_last() =~= fields);
}

/// What contracts say of an optional value is whether it is there, and what it
/// holds.
pub proof fn optional_models_are_faithful(json: &Json)
    ensures
        optional(Some(json)) == Some(json@),
        optional(None) is None,
{
}

} // verus!
