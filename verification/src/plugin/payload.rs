//! The JSON form of UI payloads.
//!
//! A payload is an object tagged by `kind`, a block one tagged by `type`; the
//! other fields are those of the kind. A field that the kind does not have is
//! refused, so the vocabulary stays closed and a future field is an explicit
//! api bump. Either can also be given as an array: the tag, then the fields in
//! their order, of which those that have a default may be left out at the end.

use vstd::prelude::*;

use crate::json;
use crate::json::Json;
use crate::json::JsonModel;
use crate::json::NumberModel;
use crate::plugin::ui;
use crate::plugin::ui::Block;
use crate::plugin::ui::BlockModel;
use crate::plugin::ui::FloatBits;
use crate::plugin::ui::PayloadModel;
use crate::plugin::ui::Severity;
use crate::plugin::ui::UiPayload;
use crate::text;
use crate::text::same_text;

verus! {

/// The severity of a name.
pub open spec fn severity_named(name: Seq<char>) -> Option<Severity> {
    if name == "info"@ {
        Some(Severity::Info)
    } else if name == "success"@ {
        Some(Severity::Success)
    } else if name == "warning"@ {
        Some(Severity::Warning)
    } else if name == "error"@ {
        Some(Severity::Error)
    } else {
        None
    }
}

/// Whether a value carries nothing: it is null or an object without fields.
pub open spec fn carries_nothing(model: JsonModel) -> bool {
    model is Null || json::has_only(model, seq![])
}

fn is_nothing(value: &Json) -> (r: bool)
    ensures
        r == carries_nothing(value@),
{
    let names: Vec<String> = Vec::new();
    assert(text::texts(names@) =~= seq![]);
    value.is_null() || value.has_only(&names)
}

/// Whether a value is an object of one field, of this name, that carries
/// nothing.
pub open spec fn names_alone(model: JsonModel, name: Seq<char>) -> bool {
    json::has_only(model, seq![name]) && match json::field(model, name) {
        Some(held) => carries_nothing(held),
        None => false,
    }
}

fn is_name_alone(value: &Json, name: &str) -> (r: bool)
    ensures
        r == names_alone(value@, name@),
{
    let names = vec![name.to_owned()];
    assert(text::texts(names@) =~= seq![name@]);
    match value.get(name) {
        Some(held) => value.has_only(&names) && is_nothing(held),
        None => false,
    }
}

/// The severity that a value stands for: its name, or an object of one field
/// of that name that carries nothing.
pub open spec fn severity_of(model: JsonModel) -> Option<Severity> {
    match model {
        JsonModel::Text(name) => severity_named(name),
        _ => if names_alone(model, "info"@) {
            Some(Severity::Info)
        } else if names_alone(model, "success"@) {
            Some(Severity::Success)
        } else if names_alone(model, "warning"@) {
            Some(Severity::Warning)
        } else if names_alone(model, "error"@) {
            Some(Severity::Error)
        } else {
            None
        },
    }
}

/// The severity that an optional value stands for, `Info` where there is no
/// value; `None` where the value is no severity.
pub open spec fn severity_given(given: Option<JsonModel>) -> Option<Severity> {
    match given {
        None => Some(Severity::Info),
        Some(model) => severity_of(model),
    }
}

/// Read an optional severity.
pub fn read_severity(given: Option<&Json>) -> (r: Option<Severity>)
    ensures
        r == severity_given(json::optional(given)),
{
    let value = match given {
        Some(value) => value,
        None => {
            return Some(Severity::Info);
        },
    };
    if let Some(name) = value.as_str() {
        return if same_text(name, "info") {
            Some(Severity::Info)
        } else if same_text(name, "success") {
            Some(Severity::Success)
        } else if same_text(name, "warning") {
            Some(Severity::Warning)
        } else if same_text(name, "error") {
            Some(Severity::Error)
        } else {
            None
        };
    }
    if is_name_alone(value, "info") {
        Some(Severity::Info)
    } else if is_name_alone(value, "success") {
        Some(Severity::Success)
    } else if is_name_alone(value, "warning") {
        Some(Severity::Warning)
    } else if is_name_alone(value, "error") {
        Some(Severity::Error)
    } else {
        None
    }
}

/// The text of an optional value, empty where there is no value; `None` where
/// the value is no text.
pub open spec fn text_given(given: Option<JsonModel>) -> Option<Seq<char>> {
    match given {
        None => Some(seq![]),
        Some(model) => json::as_text(model),
    }
}

/// Read a text that may be left out.
pub fn read_text(given: Option<&Json>) -> (r: Option<String>)
    ensures
        text::optional_text(r) == text_given(json::optional(given)),
{
    match given {
        None => {
            let empty = String::new();
            assert(empty@ =~= seq![]);
            Some(empty)
        },
        Some(value) => match value.as_str() {
            Some(s) => Some(s.to_owned()),
            None => None,
        },
    }
}

/// The tag of a tagged value, or one of its fields: in an object by its name,
/// in an array by its place, where the tag comes first.
pub open spec fn part(model: JsonModel, name: Seq<char>, place: int) -> Option<JsonModel> {
    match model {
        JsonModel::Array(items) => if 0 <= place < items.len() {
            Some(items[place])
        } else {
            None
        },
        _ => json::field(model, name),
    }
}

/// A part that is a text.
pub open spec fn text_part(model: JsonModel, name: Seq<char>, place: int) -> Option<Seq<char>> {
    match part(model, name, place) {
        Some(held) => json::as_text(held),
        None => None,
    }
}

/// Whether a tagged value has no parts but those named, the tag first.
pub open spec fn closed_by(model: JsonModel, names: Seq<Seq<char>>) -> bool {
    match model {
        JsonModel::Array(items) => items.len() <= names.len(),
        _ => json::has_only(model, names),
    }
}

fn read_part<'a>(value: &'a Json, name: &str, place: usize) -> (r: Option<&'a Json>)
    ensures
        json::optional(r) == part(value@, name@, place as int),
{
    match value.as_array() {
        Some(items) => {
            proof {
                json::items_model_index(items@);
            }
            if place < items.len() {
                Some(&items[place])
            } else {
                None
            }
        },
        None => value.get(name),
    }
}

fn read_text_part(value: &Json, name: &str, place: usize) -> (r: Option<String>)
    ensures
        text::optional_text(r) == text_part(value@, name@, place as int),
{
    match read_part(value, name, place) {
        Some(held) => match held.as_str() {
            Some(s) => Some(s.to_owned()),
            None => None,
        },
        None => None,
    }
}

fn is_closed(value: &Json, names: &Vec<String>) -> (r: bool)
    ensures
        r == closed_by(value@, text::texts(names@)),
{
    match value.as_array() {
        Some(items) => {
            proof {
                json::items_model_index(items@);
            }
            items.len() <= names.len()
        },
        None => value.has_only(names),
    }
}

/// The floating-point number of a value.
pub open spec fn float_of(model: JsonModel) -> Option<FloatBits> {
    match model {
        JsonModel::Number(n) => match json::float_bits(n) {
            Some(bits) => Some(FloatBits { bits }),
            None => None,
        },
        _ => None,
    }
}

fn read_float(value: &Json) -> (r: Option<FloatBits>)
    ensures
        r == float_of(value@),
{
    match value.as_float_bits() {
        Some(bits) => Some(FloatBits { bits }),
        None => None,
    }
}

/// The number of an optional value: none where there is no value or it is
/// null. The outer `None` is for a value that is anything else.
pub open spec fn sort_key_given(given: Option<JsonModel>) -> Option<Option<FloatBits>> {
    match given {
        None => Some(None),
        Some(JsonModel::Null) => Some(None),
        Some(model) => match float_of(model) {
            Some(key) => Some(Some(key)),
            None => None,
        },
    }
}

fn read_sort_key(given: Option<&Json>) -> (r: Option<Option<FloatBits>>)
    ensures
        r == sort_key_given(json::optional(given)),
{
    match given {
        None => Some(None),
        Some(value) => if value.is_null() {
            Some(None)
        } else {
            match read_float(value) {
                Some(key) => Some(Some(key)),
                None => None,
            }
        },
    }
}

/// The two texts of an array of two strings.
pub open spec fn pair_of(model: JsonModel) -> Option<(Seq<char>, Seq<char>)> {
    match json::as_texts(model) {
        Some(texts) => if texts.len() == 2 {
            Some((texts[0], texts[1]))
        } else {
            None
        },
        None => None,
    }
}

/// The pairs of an array of pairs.
pub open spec fn pairs_of(model: JsonModel) -> Option<Seq<(Seq<char>, Seq<char>)>> {
    match model {
        JsonModel::Array(items) => if forall|i: int|
            0 <= i < items.len() ==> pair_of(#[trigger] items[i]) is Some {
            Some(items.map_values(|m: JsonModel| pair_of(m)->0))
        } else {
            None
        },
        _ => None,
    }
}

fn read_pair(value: &Json) -> (r: Option<(String, String)>)
    ensures
        (match r {
            Some(pair) => Some((pair.0@, pair.1@)),
            None => None,
        }) == pair_of(value@),
{
    let mut texts = value.as_texts()?;
    let ghost models = text::texts(texts@);
    if texts.len() != 2 {
        return None;
    }
    let second = texts.remove(1);
    let first = texts.remove(0);
    assert(first@ == models[0] && second@ == models[1]);
    Some((first, second))
}

fn read_pairs(value: &Json) -> (r: Option<Vec<(String, String)>>)
    ensures
        (match r {
            Some(pairs) => Some(ui::pair_texts(pairs@)),
            None => None,
        }) == pairs_of(value@),
{
    let items = value.as_array()?;
    let ghost all = json::items_model(items@);
    let mut out: Vec<(String, String)> = Vec::new();
    let mut i: usize = 0;
    proof {
        json::items_model_index(items@);
    }
    while i < items.len()
        invariant
            i <= items.len(),
            all.len() == items.len(),
            forall|j: int| 0 <= j < items.len() ==> #[trigger] all[j] == items@[j]@,
            value@ == JsonModel::Array(all),
            out.len() == i,
            forall|j: int|
                0 <= j < i ==> pair_of(#[trigger] all[j]) == Some((out@[j].0@, out@[j].1@)),
        decreases items.len() - i,
    {
        match read_pair(&items[i]) {
            Some(pair) => {
                out.push(pair);
            },
            None => {
                assert(pair_of(all[i as int]) is None);
                return None;
            },
        }
        i += 1;
    }
    assert(ui::pair_texts(out@) =~= all.map_values(|m: JsonModel| pair_of(m)->0));
    Some(out)
}

/// Whether a tag says which kind of block follows: by the kind's name or by its
/// number.
pub open spec fn tells(tag: JsonModel, name: Seq<char>, number: u64) -> bool {
    json::as_text(tag) == Some(name) || json::as_u64(tag) == Some(number)
}

fn tag_tells(tag: &Json, name: &str, number: u64) -> (r: bool)
    ensures
        r == tells(tag@, name@, number),
{
    match tag.as_str() {
        Some(s) => same_text(s, name),
        None => match tag.as_u64() {
            Some(n) => n == number,
            None => false,
        },
    }
}

/// The block that a value describes.
pub open spec fn block_of(model: JsonModel) -> Option<BlockModel> {
    match part(model, "type"@, 0) {
        None => None,
        Some(tag) => if tells(tag, "text"@, 0) {
            text_block_of(model)
        } else if tells(tag, "kv"@, 1) {
            kv_block_of(model)
        } else if tells(tag, "list"@, 2) {
            list_block_of(model)
        } else if tells(tag, "metric"@, 3) {
            metric_block_of(model)
        } else {
            None
        },
    }
}

/// The block of the kind `text` that a value describes.
pub open spec fn text_block_of(model: JsonModel) -> Option<BlockModel> {
    match (text_part(model, "text"@, 1), severity_given(part(model, "severity"@, 2))) {
        (Some(text), Some(severity)) => if closed_by(
            model,
            seq!["type"@, "text"@, "severity"@],
        ) {
            Some(BlockModel::Text { text, severity })
        } else {
            None
        },
        _ => None,
    }
}

/// The block of the kind `kv` that a value describes.
pub open spec fn kv_block_of(model: JsonModel) -> Option<BlockModel> {
    match part(model, "items"@, 1) {
        Some(held) => match pairs_of(held) {
            Some(items) => if closed_by(model, seq!["type"@, "items"@]) {
                Some(BlockModel::Kv { items })
            } else {
                None
            },
            None => None,
        },
        None => None,
    }
}

/// The block of the kind `list` that a value describes.
pub open spec fn list_block_of(model: JsonModel) -> Option<BlockModel> {
    match part(model, "items"@, 1) {
        Some(held) => match json::as_texts(held) {
            Some(items) => if closed_by(model, seq!["type"@, "items"@]) {
                Some(BlockModel::List { items })
            } else {
                None
            },
            None => None,
        },
        None => None,
    }
}

/// The block of the kind `metric` that a value describes.
pub open spec fn metric_block_of(model: JsonModel) -> Option<BlockModel> {
    match (text_part(model, "label"@, 1), text_part(model, "value"@, 2)) {
        (Some(label), Some(value)) => if closed_by(model, seq!["type"@, "label"@, "value"@]) {
            Some(BlockModel::Metric { label, value })
        } else {
            None
        },
        _ => None,
    }
}

/// The model of an optional block.
pub open spec fn optional_block(block: Option<Block>) -> Option<BlockModel> {
    match block {
        Some(block) => Some(block@),
        None => None,
    }
}

fn read_text_block(value: &Json) -> (r: Option<Block>)
    ensures
        optional_block(r) == text_block_of(value@),
{
    let text = read_text_part(value, "text", 1)?;
    let severity = read_severity(read_part(value, "severity", 2))?;
    let names = vec!["type".to_owned(), "text".to_owned(), "severity".to_owned()];
    assert(text::texts(names@) =~= seq!["type"@, "text"@, "severity"@]);
    if is_closed(value, &names) {
        Some(Block::Text { text, severity })
    } else {
        None
    }
}

fn read_kv_block(value: &Json) -> (r: Option<Block>)
    ensures
        optional_block(r) == kv_block_of(value@),
{
    let items = read_pairs(read_part(value, "items", 1)?)?;
    let names = vec!["type".to_owned(), "items".to_owned()];
    assert(text::texts(names@) =~= seq!["type"@, "items"@]);
    if is_closed(value, &names) {
        Some(Block::Kv { items })
    } else {
        None
    }
}

fn read_list_block(value: &Json) -> (r: Option<Block>)
    ensures
        optional_block(r) == list_block_of(value@),
{
    let items = read_part(value, "items", 1)?.as_texts()?;
    let names = vec!["type".to_owned(), "items".to_owned()];
    assert(text::texts(names@) =~= seq!["type"@, "items"@]);
    if is_closed(value, &names) {
        Some(Block::List { items })
    } else {
        None
    }
}

fn read_metric_block(value: &Json) -> (r: Option<Block>)
    ensures
        optional_block(r) == metric_block_of(value@),
{
    let label = read_text_part(value, "label", 1)?;
    let shown = read_text_part(value, "value", 2)?;
    let names = vec!["type".to_owned(), "label".to_owned(), "value".to_owned()];
    assert(text::texts(names@) =~= seq!["type"@, "label"@, "value"@]);
    if is_closed(value, &names) {
        Some(Block::Metric { label, value: shown })
    } else {
        None
    }
}

fn read_block(value: &Json) -> (r: Option<Block>)
    ensures
        optional_block(r) == block_of(value@),
{
    let tag = read_part(value, "type", 0)?;
    if tag_tells(tag, "text", 0) {
        read_text_block(value)
    } else if tag_tells(tag, "kv", 1) {
        read_kv_block(value)
    } else if tag_tells(tag, "list", 2) {
        read_list_block(value)
    } else if tag_tells(tag, "metric", 3) {
        read_metric_block(value)
    } else {
        None
    }
}

/// The blocks that an array describes.
pub open spec fn blocks_of(model: JsonModel) -> Option<Seq<BlockModel>> {
    match model {
        JsonModel::Array(items) => if forall|i: int|
            0 <= i < items.len() ==> block_of(#[trigger] items[i]) is Some {
            Some(items.map_values(|m: JsonModel| block_of(m)->0))
        } else {
            None
        },
        _ => None,
    }
}

fn read_blocks(value: &Json) -> (r: Option<Vec<Block>>)
    ensures
        (match r {
            Some(blocks) => Some(ui::block_models(blocks@)),
            None => None,
        }) == blocks_of(value@),
{
    let items = value.as_array()?;
    let ghost all = json::items_model(items@);
    let mut out: Vec<Block> = Vec::new();
    let mut i: usize = 0;
    proof {
        json::items_model_index(items@);
    }
    while i < items.len()
        invariant
            i <= items.len(),
            all.len() == items.len(),
            forall|j: int| 0 <= j < items.len() ==> #[trigger] all[j] == items@[j]@,
            value@ == JsonModel::Array(all),
            out.len() == i,
            forall|j: int| 0 <= j < i ==> block_of(#[trigger] all[j]) == Some(out@[j]@),
        decreases items.len() - i,
    {
        match read_block(&items[i]) {
            Some(block) => {
                out.push(block);
            },
            None => {
                assert(block_of(all[i as int]) is None);
                return None;
            },
        }
        i += 1;
    }
    assert(ui::block_models(out@) =~= all.map_values(|m: JsonModel| block_of(m)->0));
    Some(out)
}

/// The payload of the kind `badge` that a value describes.
pub open spec fn badge_of(model: JsonModel) -> Option<PayloadModel> {
    match (
        text_part(model, "text"@, 1),
        severity_given(part(model, "severity"@, 2)),
        text_given(part(model, "tooltip"@, 3)),
    ) {
        (Some(text), Some(severity), Some(tooltip)) => if closed_by(
            model,
            seq!["kind"@, "text"@, "severity"@, "tooltip"@],
        ) {
            Some(PayloadModel::Badge { text, severity, tooltip })
        } else {
            None
        },
        _ => None,
    }
}

/// The payload of the kind `cell` that a value describes.
pub open spec fn cell_of(model: JsonModel) -> Option<PayloadModel> {
    match (
        text_part(model, "text"@, 1),
        severity_given(part(model, "severity"@, 2)),
        sort_key_given(part(model, "sort_key"@, 3)),
    ) {
        (Some(text), Some(severity), Some(sort_key)) => if closed_by(
            model,
            seq!["kind"@, "text"@, "severity"@, "sort_key"@],
        ) {
            Some(PayloadModel::Cell { text, severity, sort_key })
        } else {
            None
        },
        _ => None,
    }
}

/// The payload of the kind `sort_key` that a value describes.
pub open spec fn key_of(model: JsonModel) -> Option<PayloadModel> {
    match (part(model, "key"@, 1), text_given(part(model, "reason"@, 2))) {
        (Some(held), Some(reason)) => match float_of(held) {
            Some(key) => if closed_by(model, seq!["kind"@, "key"@, "reason"@]) {
                Some(PayloadModel::SortKey { key, reason })
            } else {
                None
            },
            None => None,
        },
        _ => None,
    }
}

/// The payload of the kind `facets` that a value describes.
pub open spec fn facets_of(model: JsonModel) -> Option<PayloadModel> {
    match part(model, "values"@, 1) {
        Some(held) => match json::as_texts(held) {
            Some(values) => if closed_by(model, seq!["kind"@, "values"@]) {
                Some(PayloadModel::Facets { values })
            } else {
                None
            },
            None => None,
        },
        None => None,
    }
}

/// The payload of the kind `blocks` that a value describes.
pub open spec fn card_of(model: JsonModel) -> Option<PayloadModel> {
    match (severity_given(part(model, "severity"@, 1)), part(model, "blocks"@, 2)) {
        (Some(severity), Some(held)) => match blocks_of(held) {
            Some(blocks) => if closed_by(model, seq!["kind"@, "severity"@, "blocks"@]) {
                Some(PayloadModel::Blocks { severity, blocks })
            } else {
                None
            },
            None => None,
        },
        _ => None,
    }
}

/// The payload that a value describes.
pub open spec fn payload_of(model: JsonModel) -> Option<PayloadModel> {
    match text_part(model, "kind"@, 0) {
        None => None,
        Some(kind) => if kind == "badge"@ {
            badge_of(model)
        } else if kind == "cell"@ {
            cell_of(model)
        } else if kind == "sort_key"@ {
            key_of(model)
        } else if kind == "facets"@ {
            facets_of(model)
        } else if kind == "blocks"@ {
            card_of(model)
        } else {
            None
        },
    }
}

/// The model of an optional payload.
pub open spec fn optional_payload(payload: Option<UiPayload>) -> Option<PayloadModel> {
    match payload {
        Some(payload) => Some(payload@),
        None => None,
    }
}

fn read_badge(value: &Json) -> (r: Option<UiPayload>)
    ensures
        optional_payload(r) == badge_of(value@),
{
    let text = read_text_part(value, "text", 1)?;
    let severity = read_severity(read_part(value, "severity", 2))?;
    let tooltip = read_text(read_part(value, "tooltip", 3))?;
    let names = vec![
        "kind".to_owned(),
        "text".to_owned(),
        "severity".to_owned(),
        "tooltip".to_owned(),
    ];
    assert(text::texts(names@) =~= seq!["kind"@, "text"@, "severity"@, "tooltip"@]);
    if is_closed(value, &names) {
        Some(UiPayload::Badge { text, severity, tooltip })
    } else {
        None
    }
}

fn read_cell(value: &Json) -> (r: Option<UiPayload>)
    ensures
        optional_payload(r) == cell_of(value@),
{
    let text = read_text_part(value, "text", 1)?;
    let severity = read_severity(read_part(value, "severity", 2))?;
    let sort_key = read_sort_key(read_part(value, "sort_key", 3))?;
    let names = vec![
        "kind".to_owned(),
        "text".to_owned(),
        "severity".to_owned(),
        "sort_key".to_owned(),
    ];
    assert(text::texts(names@) =~= seq!["kind"@, "text"@, "severity"@, "sort_key"@]);
    if is_closed(value, &names) {
        Some(UiPayload::Cell { text, severity, sort_key })
    } else {
        None
    }
}

fn read_key(value: &Json) -> (r: Option<UiPayload>)
    ensures
        optional_payload(r) == key_of(value@),
{
    let key = read_float(read_part(value, "key", 1)?)?;
    let reason = read_text(read_part(value, "reason", 2))?;
    let names = vec!["kind".to_owned(), "key".to_owned(), "reason".to_owned()];
    assert(text::texts(names@) =~= seq!["kind"@, "key"@, "reason"@]);
    if is_closed(value, &names) {
        Some(UiPayload::SortKey { key, reason })
    } else {
        None
    }
}

fn read_facets(value: &Json) -> (r: Option<UiPayload>)
    ensures
        optional_payload(r) == facets_of(value@),
{
    let values = read_part(value, "values", 1)?.as_texts()?;
    let names = vec!["kind".to_owned(), "values".to_owned()];
    assert(text::texts(names@) =~= seq!["kind"@, "values"@]);
    if is_closed(value, &names) {
        Some(UiPayload::Facets { values })
    } else {
        None
    }
}

fn read_card(value: &Json) -> (r: Option<UiPayload>)
    ensures
        optional_payload(r) == card_of(value@),
{
    let severity = read_severity(read_part(value, "severity", 1))?;
    let blocks = read_blocks(read_part(value, "blocks", 2)?)?;
    let names = vec!["kind".to_owned(), "severity".to_owned(), "blocks".to_owned()];
    assert(text::texts(names@) =~= seq!["kind"@, "severity"@, "blocks"@]);
    if is_closed(value, &names) {
        Some(UiPayload::Blocks { severity, blocks })
    } else {
        None
    }
}

/// Read a payload; `None` where the value describes none.
pub fn read_payload(value: &Json) -> (r: Option<UiPayload>)
    ensures
        optional_payload(r) == payload_of(value@),
{
    let kind = read_text_part(value, "kind", 0)?;
    let kind = kind.as_str();
    if same_text(kind, "badge") {
        read_badge(value)
    } else if same_text(kind, "cell") {
        read_cell(value)
    } else if same_text(kind, "sort_key") {
        read_key(value)
    } else if same_text(kind, "facets") {
        read_facets(value)
    } else if same_text(kind, "blocks") {
        read_card(value)
    } else {
        None
    }
}

/// Whether an object shows a severity in plain form: by no field `severity` at
/// all, or by a field that holds the name.
pub open spec fn shows_severity(fields: Map<Seq<char>, JsonModel>, severity: Severity) -> bool {
    if fields.contains_key("severity"@) {
        ||| fields["severity"@] == JsonModel::Text("info"@) && severity is Info
        ||| fields["severity"@] == JsonModel::Text("success"@) && severity is Success
        ||| fields["severity"@] == JsonModel::Text("warning"@) && severity is Warning
        ||| fields["severity"@] == JsonModel::Text("error"@) && severity is Error
    } else {
        severity is Info
    }
}

/// Whether an object shows a text under a name, an empty one by no such field.
pub open spec fn shows_text(
    fields: Map<Seq<char>, JsonModel>,
    name: Seq<char>,
    shown: Seq<char>,
) -> bool {
    if fields.contains_key(name) {
        fields[name] == JsonModel::Text(shown)
    } else {
        shown.len() == 0
    }
}

proof fn names_are_told_apart()
    ensures
        "info"@ != "success"@,
        "info"@ != "warning"@,
        "info"@ != "error"@,
        "success"@ != "warning"@,
        "success"@ != "error"@,
        "warning"@ != "error"@,
        "badge"@ != "cell"@,
        "badge"@ != "sort_key"@,
        "badge"@ != "facets"@,
        "badge"@ != "blocks"@,
        "cell"@ != "sort_key"@,
        "cell"@ != "facets"@,
        "cell"@ != "blocks"@,
        "sort_key"@ != "facets"@,
        "sort_key"@ != "blocks"@,
        "facets"@ != "blocks"@,
        "text"@ != "kv"@,
        "text"@ != "list"@,
        "text"@ != "metric"@,
        "kv"@ != "list"@,
        "kv"@ != "metric"@,
        "list"@ != "metric"@,
{
    reveal_strlit("info");
    reveal_strlit("success");
    reveal_strlit("warning");
    reveal_strlit("error");
    reveal_strlit("badge");
    reveal_strlit("cell");
    reveal_strlit("sort_key");
    reveal_strlit("facets");
    reveal_strlit("blocks");
    reveal_strlit("text");
    reveal_strlit("kv");
    reveal_strlit("list");
    reveal_strlit("metric");
    assert("success"@[0] == 's' && "warning"@[0] == 'w');
    assert("info"@.len() == 4 && "error"@.len() == 5 && "success"@.len() == 7 && "warning"@.len()
        == 7);
    assert("facets"@[0] == 'f' && "blocks"@[0] == 'b');
    assert("badge"@.len() == 5 && "cell"@.len() == 4 && "sort_key"@.len() == 8 && "facets"@.len()
        == 6 && "blocks"@.len() == 6);
    assert("text"@[0] == 't' && "list"@[0] == 'l');
    assert("text"@.len() == 4 && "kv"@.len() == 2 && "list"@.len() == 4 && "metric"@.len() == 6);
}

proof fn field_names_are_told_apart()
    ensures
        "kind"@ != "text"@,
        "kind"@ != "severity"@,
        "kind"@ != "tooltip"@,
        "kind"@ != "sort_key"@,
        "kind"@ != "key"@,
        "kind"@ != "reason"@,
        "kind"@ != "values"@,
        "kind"@ != "blocks"@,
        "text"@ != "severity"@,
        "text"@ != "tooltip"@,
        "text"@ != "sort_key"@,
        "severity"@ != "tooltip"@,
        "severity"@ != "sort_key"@,
        "severity"@ != "blocks"@,
        "key"@ != "reason"@,
        "type"@ != "text"@,
        "type"@ != "severity"@,
        "type"@ != "items"@,
        "type"@ != "label"@,
        "type"@ != "value"@,
        "label"@ != "value"@,
{
    reveal_strlit("kind");
    reveal_strlit("text");
    reveal_strlit("severity");
    reveal_strlit("tooltip");
    reveal_strlit("sort_key");
    reveal_strlit("key");
    reveal_strlit("reason");
    reveal_strlit("values");
    reveal_strlit("blocks");
    reveal_strlit("type");
    reveal_strlit("items");
    reveal_strlit("label");
    reveal_strlit("value");
    assert("kind"@[0] == 'k' && "text"@[0] == 't' && "type"@[0] == 't');
    assert("text"@[1] == 'e' && "type"@[1] == 'y');
    assert("severity"@[1] == 'e' && "sort_key"@[1] == 'o');
    assert("label"@[0] == 'l' && "value"@[0] == 'v');
    assert("kind"@.len() == 4 && "text"@.len() == 4 && "severity"@.len() == 8 && "tooltip"@.len()
        == 7 && "sort_key"@.len() == 8 && "key"@.len() == 3 && "reason"@.len() == 6);
    assert("values"@.len() == 6 && "blocks"@.len() == 6 && "type"@.len() == 4 && "items"@.len()
        == 5 && "label"@.len() == 5 && "value"@.len() == 5);
}

proof fn shown_severities_are_read(fields: Map<Seq<char>, JsonModel>, severity: Severity)
    requires
        shows_severity(fields, severity),
    ensures
        severity_given(json::field(JsonModel::Object(fields), "severity"@)) == Some(severity),
{
    names_are_told_apart();
}

proof fn shown_texts_are_read(fields: Map<Seq<char>, JsonModel>, name: Seq<char>, shown: Seq<char>)
    requires
        shows_text(fields, name, shown),
    ensures
        text_given(json::field(JsonModel::Object(fields), name)) == Some(shown),
{
    if !fields.contains_key(name) {
        assert(shown =~= seq![]);
    }
}

/// A badge is read off an object with its text, its severity and its tooltip; a
/// cell with its text, its severity and its number; one more field, whatever
/// its name, and the object is refused.
pub proof fn badges_and_cells_are_read(
    fields: Map<Seq<char>, JsonModel>,
    text: Seq<char>,
    severity: Severity,
    tooltip: Seq<char>,
    number: NumberModel,
    bits: u64,
    extra: Seq<char>,
)
    requires
        fields.contains_key("kind"@),
        fields.contains_key("text"@),
        fields["text"@] == JsonModel::Text(text),
        shows_severity(fields, severity),
    ensures
        fields["kind"@] == JsonModel::Text("badge"@) && shows_text(fields, "tooltip"@, tooltip) && (
        forall|key: Seq<char>| #[trigger]
            fields.contains_key(key) ==> key == "kind"@ || key == "text"@ || key == "severity"@ || key
                == "tooltip"@) ==> payload_of(JsonModel::Object(fields)) == Some(
            PayloadModel::Badge { text, severity, tooltip },
        ),
        fields["kind"@] == JsonModel::Text("badge"@) && fields.contains_key(extra) && extra
            != "kind"@ && extra != "text"@ && extra != "severity"@ && extra != "tooltip"@
            ==> payload_of(JsonModel::Object(fields)) is None,
        fields["kind"@] == JsonModel::Text("cell"@) && (fields.contains_key("sort_key"@)
            ==> fields["sort_key"@] is Null) && (forall|key: Seq<char>| #[trigger]
            fields.contains_key(key) ==> key == "kind"@ || key == "text"@ || key == "severity"@ || key
                == "sort_key"@) ==> payload_of(JsonModel::Object(fields)) == Some(
            PayloadModel::Cell { text, severity, sort_key: None },
        ),
        fields["kind"@] == JsonModel::Text("cell"@) && fields.contains_key("sort_key"@)
            && fields["sort_key"@] == JsonModel::Number(number) && json::float_bits(number) == Some(
            bits,
        ) && (forall|key: Seq<char>| #[trigger]
            fields.contains_key(key) ==> key == "kind"@ || key == "text"@ || key == "severity"@ || key
                == "sort_key"@) ==> payload_of(JsonModel::Object(fields)) == Some(
            PayloadModel::Cell { text, severity, sort_key: Some(FloatBits { bits }) },
        ),
        fields["kind"@] == JsonModel::Text("cell"@) && fields.contains_key(extra) && extra
            != "kind"@ && extra != "text"@ && extra != "severity"@ && extra != "sort_key"@
            ==> payload_of(JsonModel::Object(fields)) is None,
{
    names_are_told_apart();
    shown_severities_are_read(fields, severity);
    if shows_text(fields, "tooltip"@, tooltip) {
        shown_texts_are_read(fields, "tooltip"@, tooltip);
    }
    let badge = seq!["kind"@, "text"@, "severity"@, "tooltip"@];
    let cell = seq!["kind"@, "text"@, "severity"@, "sort_key"@];
    assert(badge[0] == "kind"@ && badge[1] == "text"@ && badge[2] == "severity"@ && badge[3]
        == "tooltip"@);
    assert(cell[0] == "kind"@ && cell[1] == "text"@ && cell[2] == "severity"@ && cell[3]
        == "sort_key"@);
    let model = JsonModel::Object(fields);
    if fields.contains_key(extra) && extra != "kind"@ && extra != "text"@ && extra
        != "severity"@ {
        assert(model->Object_0.contains_key(extra));
        if extra != "tooltip"@ {
            assert(!badge.contains(extra));
            assert(!closed_by(model, badge));
        }
        if extra != "sort_key"@ {
            assert(!cell.contains(extra));
            assert(!closed_by(model, cell));
        }
    }
}

/// A sort key is read with its number and its reason, facets with their values,
/// all and in order; one more field, and the object is refused.
pub proof fn keys_and_facets_are_read(
    fields: Map<Seq<char>, JsonModel>,
    number: NumberModel,
    bits: u64,
    reason: Seq<char>,
    values: Seq<Seq<char>>,
    extra: Seq<char>,
)
    requires
        fields.contains_key("kind"@),
    ensures
        fields["kind"@] == JsonModel::Text("sort_key"@) && fields.contains_key("key"@)
            && fields["key"@] == JsonModel::Number(number) && json::float_bits(number) == Some(bits)
            && shows_text(fields, "reason"@, reason) && (forall|key: Seq<char>| #[trigger]
            fields.contains_key(key) ==> key == "kind"@ || key == "key"@ || key == "reason"@)
            ==> payload_of(JsonModel::Object(fields)) == Some(
            PayloadModel::SortKey { key: FloatBits { bits }, reason },
        ),
        fields["kind"@] == JsonModel::Text("sort_key"@) && fields.contains_key(extra) && extra
            != "kind"@ && extra != "key"@ && extra != "reason"@ ==> payload_of(
            JsonModel::Object(fields),
        ) is None,
        fields["kind"@] == JsonModel::Text("facets"@) && fields.contains_key("values"@)
            && fields["values"@] == JsonModel::Array(
            values.map_values(|value: Seq<char>| JsonModel::Text(value)),
        ) && (forall|key: Seq<char>| #[trigger]
            fields.contains_key(key) ==> key == "kind"@ || key == "values"@) ==> payload_of(
            JsonModel::Object(fields),
        ) == Some(PayloadModel::Facets { values }),
        fields["kind"@] == JsonModel::Text("facets"@) && fields.contains_key(extra) && extra
            != "kind"@ && extra != "values"@ ==> payload_of(JsonModel::Object(fields)) is None,
{
    names_are_told_apart();
    if shows_text(fields, "reason"@, reason) {
        shown_texts_are_read(fields, "reason"@, reason);
    }
    let keyed = seq!["kind"@, "key"@, "reason"@];
    let faceted = seq!["kind"@, "values"@];
    assert(keyed[0] == "kind"@ && keyed[1] == "key"@ && keyed[2] == "reason"@);
    assert(faceted[0] == "kind"@ && faceted[1] == "values"@);
    texts_are_read(values);
    let model = JsonModel::Object(fields);
    if fields.contains_key(extra) && extra != "kind"@ {
        assert(model->Object_0.contains_key(extra));
        if extra != "key"@ && extra != "reason"@ {
            assert(!keyed.contains(extra));
            assert(!closed_by(model, keyed));
        }
        if extra != "values"@ {
            assert(!faceted.contains(extra));
            assert(!closed_by(model, faceted));
        }
    }
}

proof fn texts_are_read(values: Seq<Seq<char>>)
    ensures
        json::as_texts(
            JsonModel::Array(values.map_values(|value: Seq<char>| JsonModel::Text(value))),
        ) == Some(values),
{
    let items = values.map_values(|value: Seq<char>| JsonModel::Text(value));
    assert(items.map_values(|m: JsonModel| m->Text_0) =~= values);
}

/// Blocks are read with their severity and with every block, in order, each as
/// it is read alone; where one of them is no block, and where there is one more
/// field, the object is refused.
pub proof fn cards_are_read(
    fields: Map<Seq<char>, JsonModel>,
    severity: Severity,
    items: Seq<JsonModel>,
    extra: Seq<char>,
)
    requires
        fields.contains_key("kind"@),
        fields["kind"@] == JsonModel::Text("blocks"@),
        fields.contains_key("blocks"@),
        fields["blocks"@] == JsonModel::Array(items),
        shows_severity(fields, severity),
    ensures
        (forall|i: int| 0 <= i < items.len() ==> block_of(#[trigger] items[i]) is Some) && (forall|
            key: Seq<char>,
        | #[trigger]
            fields.contains_key(key) ==> key == "kind"@ || key == "severity"@ || key == "blocks"@)
            ==> (payload_of(JsonModel::Object(fields)) matches Some(
            PayloadModel::Blocks { severity: read, blocks },
        ) && read == severity && blocks.len() == items.len() && forall|i: int|
            0 <= i < items.len() ==> block_of(items[i]) == Some(#[trigger] blocks[i])),
        (exists|i: int| 0 <= i < items.len() && block_of(#[trigger] items[i]) is None)
            ==> payload_of(JsonModel::Object(fields)) is None,
        fields.contains_key(extra) && extra != "kind"@ && extra != "severity"@ && extra
            != "blocks"@ ==> payload_of(JsonModel::Object(fields)) is None,
{
    names_are_told_apart();
    shown_severities_are_read(fields, severity);
    let names = seq!["kind"@, "severity"@, "blocks"@];
    assert(names[0] == "kind"@ && names[1] == "severity"@ && names[2] == "blocks"@);
    let model = JsonModel::Object(fields);
    if fields.contains_key(extra) && extra != "kind"@ && extra != "severity"@ && extra
        != "blocks"@ {
        assert(model->Object_0.contains_key(extra));
        assert(!names.contains(extra));
        assert(!closed_by(model, names));
    }
}

/// An object without a kind, with a kind that nobody knows, or with a field of
/// the wrong form describes no payload.
pub proof fn other_objects_describe_no_payload(fields: Map<Seq<char>, JsonModel>)
    ensures
        !fields.contains_key("kind"@) ==> payload_of(JsonModel::Object(fields)) is None,
        fields.contains_key("kind"@) && !(fields["kind"@] is Text) ==> payload_of(
            JsonModel::Object(fields),
        ) is None,
        payload_of(JsonModel::Object(fields)) is Some ==> ({
            let kind = fields["kind"@];
            let read = payload_of(JsonModel::Object(fields))->0;
            &&& read is Badge <==> kind == JsonModel::Text("badge"@)
            &&& read is Cell <==> kind == JsonModel::Text("cell"@)
            &&& read is SortKey <==> kind == JsonModel::Text("sort_key"@)
            &&& read is Facets <==> kind == JsonModel::Text("facets"@)
            &&& read is Blocks <==> kind == JsonModel::Text("blocks"@)
        }),
        payload_of(JsonModel::Object(fields)) matches Some(PayloadModel::Badge { text, .. })
            ==> fields["text"@] == JsonModel::Text(text),
        payload_of(JsonModel::Object(fields)) matches Some(PayloadModel::Cell { text, .. })
            ==> fields["text"@] == JsonModel::Text(text),
        payload_of(JsonModel::Object(fields)) matches Some(PayloadModel::Badge { tooltip, .. })
            ==> shows_text(fields, "tooltip"@, tooltip),
        payload_of(JsonModel::Object(fields)) matches Some(PayloadModel::SortKey { reason, .. })
            ==> shows_text(fields, "reason"@, reason),
        payload_of(JsonModel::Object(fields)) matches Some(PayloadModel::SortKey { .. })
            ==> fields["key"@] is Number,
        payload_of(JsonModel::Object(fields)) matches Some(PayloadModel::Facets { .. })
            ==> fields["values"@] is Array,
        payload_of(JsonModel::Object(fields)) matches Some(PayloadModel::Blocks { .. })
            ==> fields["blocks"@] is Array,
        payload_of(JsonModel::Null) is None,
        payload_of(JsonModel::Array(Seq::empty())) is None,
{
    names_are_told_apart();
}

/// A payload given as an array, the kind first and the fields by place, is the
/// one that the object of those fields describes.
pub proof fn arrays_describe_what_objects_do(
    a: JsonModel,
    b: JsonModel,
    c: JsonModel,
)
    ensures
        ({
            let kind = JsonModel::Text("badge"@);
            &&& payload_of(JsonModel::Array(seq![kind, a, b, c])) == payload_of(
                JsonModel::Object(
                    map!["kind"@ => kind, "text"@ => a, "severity"@ => b, "tooltip"@ => c],
                ),
            )
            &&& payload_of(JsonModel::Array(seq![kind, a, b])) == payload_of(
                JsonModel::Object(map!["kind"@ => kind, "text"@ => a, "severity"@ => b]),
            )
            &&& payload_of(JsonModel::Array(seq![kind, a])) == payload_of(
                JsonModel::Object(map!["kind"@ => kind, "text"@ => a]),
            )
        }),
        ({
            let kind = JsonModel::Text("cell"@);
            &&& payload_of(JsonModel::Array(seq![kind, a, b, c])) == payload_of(
                JsonModel::Object(
                    map!["kind"@ => kind, "text"@ => a, "severity"@ => b, "sort_key"@ => c],
                ),
            )
            &&& payload_of(JsonModel::Array(seq![kind, a, b])) == payload_of(
                JsonModel::Object(map!["kind"@ => kind, "text"@ => a, "severity"@ => b]),
            )
            &&& payload_of(JsonModel::Array(seq![kind, a])) == payload_of(
                JsonModel::Object(map!["kind"@ => kind, "text"@ => a]),
            )
        }),
        ({
            let kind = JsonModel::Text("sort_key"@);
            &&& payload_of(JsonModel::Array(seq![kind, a, b])) == payload_of(
                JsonModel::Object(map!["kind"@ => kind, "key"@ => a, "reason"@ => b]),
            )
            &&& payload_of(JsonModel::Array(seq![kind, a])) == payload_of(
                JsonModel::Object(map!["kind"@ => kind, "key"@ => a]),
            )
        }),
        ({
            let kind = JsonModel::Text("facets"@);
            payload_of(JsonModel::Array(seq![kind, a])) == payload_of(
                JsonModel::Object(map!["kind"@ => kind, "values"@ => a]),
            )
        }),
        ({
            let kind = JsonModel::Text("blocks"@);
            payload_of(JsonModel::Array(seq![kind, a, b])) == payload_of(
                JsonModel::Object(map!["kind"@ => kind, "severity"@ => a, "blocks"@ => b]),
            )
        }),
{
    names_are_told_apart();
    field_names_are_told_apart();
    let badge = seq!["kind"@, "text"@, "severity"@, "tooltip"@];
    let cell = seq!["kind"@, "text"@, "severity"@, "sort_key"@];
    let keyed = seq!["kind"@, "key"@, "reason"@];
    let faceted = seq!["kind"@, "values"@];
    let card = seq!["kind"@, "severity"@, "blocks"@];
    assert(badge[0] == "kind"@ && badge[1] == "text"@ && badge[2] == "severity"@ && badge[3]
        == "tooltip"@);
    assert(cell[0] == "kind"@ && cell[1] == "text"@ && cell[2] == "severity"@ && cell[3]
        == "sort_key"@);
    assert(keyed[0] == "kind"@ && keyed[1] == "key"@ && keyed[2] == "reason"@);
    assert(faceted[0] == "kind"@ && faceted[1] == "values"@);
    assert(card[0] == "kind"@ && card[1] == "severity"@ && card[2] == "blocks"@);
}

/// An array that is longer than its kind has fields describes no payload.
pub proof fn long_arrays_describe_no_payload(items: Seq<JsonModel>)
    ensures
        items.len() > 4 ==> payload_of(JsonModel::Array(items)) is None,
        items.len() > 3 && (items[0] == JsonModel::Text("sort_key"@) || items[0] == JsonModel::Text(
            "blocks"@,
        )) ==> payload_of(JsonModel::Array(items)) is None,
        items.len() > 2 && items[0] == JsonModel::Text("facets"@) ==> payload_of(
            JsonModel::Array(items),
        ) is None,
        items.len() > 0 && !(items[0] is Text) ==> payload_of(JsonModel::Array(items)) is None,
{
    names_are_told_apart();
}

/// A block is read off an object with its own fields: a text with its severity,
/// rows of pairs, a list of texts, and a metric with its label and its value.
pub proof fn blocks_are_read(
    fields: Map<Seq<char>, JsonModel>,
    text: Seq<char>,
    more: Seq<char>,
    severity: Severity,
    values: Seq<Seq<char>>,
    rows: Seq<JsonModel>,
    extra: Seq<char>,
)
    requires
        fields.contains_key("type"@),
    ensures
        fields["type"@] == JsonModel::Text("text"@) && fields.contains_key("text"@)
            && fields["text"@] == JsonModel::Text(text) && shows_severity(fields, severity) && (
        forall|key: Seq<char>| #[trigger]
            fields.contains_key(key) ==> key == "type"@ || key == "text"@ || key == "severity"@)
            ==> block_of(JsonModel::Object(fields)) == Some(BlockModel::Text { text, severity }),
        fields["type"@] == JsonModel::Text("metric"@) && fields.contains_key("label"@)
            && fields["label"@] == JsonModel::Text(text) && fields.contains_key("value"@)
            && fields["value"@] == JsonModel::Text(more) && (forall|key: Seq<char>| #[trigger]
            fields.contains_key(key) ==> key == "type"@ || key == "label"@ || key == "value"@)
            ==> block_of(JsonModel::Object(fields)) == Some(
            BlockModel::Metric { label: text, value: more },
        ),
        fields["type"@] == JsonModel::Text("list"@) && fields.contains_key("items"@)
            && fields["items"@] == JsonModel::Array(
            values.map_values(|value: Seq<char>| JsonModel::Text(value)),
        ) && (forall|key: Seq<char>| #[trigger]
            fields.contains_key(key) ==> key == "type"@ || key == "items"@) ==> block_of(
            JsonModel::Object(fields),
        ) == Some(BlockModel::List { items: values }),
        fields["type"@] == JsonModel::Text("kv"@) && fields.contains_key("items"@)
            && fields["items"@] == JsonModel::Array(rows) && (forall|key: Seq<char>| #[trigger]
            fields.contains_key(key) ==> key == "type"@ || key == "items"@) && (forall|i: int|
            0 <= i < rows.len() ==> pair_of(#[trigger] rows[i]) is Some) ==> (block_of(
            JsonModel::Object(fields),
        ) matches Some(BlockModel::Kv { items }) && items.len() == rows.len() && forall|i: int|
            0 <= i < rows.len() ==> pair_of(rows[i]) == Some(#[trigger] items[i])),
        fields.contains_key(extra) && extra != "type"@ && extra != "text"@ && extra != "severity"@
            && extra != "items"@ && extra != "label"@ && extra != "value"@ ==> block_of(
            JsonModel::Object(fields),
        ) is None,
        block_of(JsonModel::Object(fields)) matches Some(block) ==> (block is Text ==> fields["type"@]
            == JsonModel::Text("text"@) || fields["type"@] == JsonModel::Number(
            NumberModel::Unsigned(0),
        )) && (block is Kv ==> fields["type"@] == JsonModel::Text("kv"@) || fields["type"@]
            == JsonModel::Number(NumberModel::Unsigned(1))) && (block is List
            ==> fields["type"@] == JsonModel::Text("list"@) || fields["type"@] == JsonModel::Number(
            NumberModel::Unsigned(2),
        )) && (block is Metric ==> fields["type"@] == JsonModel::Text("metric"@) || fields["type"@]
            == JsonModel::Number(NumberModel::Unsigned(3))),
{
    names_are_told_apart();
    if shows_severity(fields, severity) {
        shown_severities_are_read(fields, severity);
    }
    texts_are_read(values);
    let written = seq!["type"@, "text"@, "severity"@];
    let listed = seq!["type"@, "items"@];
    let measured = seq!["type"@, "label"@, "value"@];
    assert(written[0] == "type"@ && written[1] == "text"@ && written[2] == "severity"@);
    assert(listed[0] == "type"@ && listed[1] == "items"@);
    assert(measured[0] == "type"@ && measured[1] == "label"@ && measured[2] == "value"@);
    let model = JsonModel::Object(fields);
    if fields.contains_key(extra) && extra != "type"@ && extra != "text"@ && extra != "severity"@
        && extra != "items"@ && extra != "label"@ && extra != "value"@ {
        assert(model->Object_0.contains_key(extra));
        assert(!written.contains(extra) && !listed.contains(extra) && !measured.contains(extra));
        assert(!closed_by(model, written) && !closed_by(model, listed) && !closed_by(
            model,
            measured,
        ));
    }
}

/// A row of a block is an array of exactly two texts, the key and the value.
pub proof fn rows_are_pairs(a: Seq<char>, b: Seq<char>, items: Seq<JsonModel>)
    ensures
        pair_of(JsonModel::Array(seq![JsonModel::Text(a), JsonModel::Text(b)])) == Some((a, b)),
        items.len() != 2 ==> pair_of(JsonModel::Array(items)) is None,
        items.len() == 2 && !(items[0] is Text && items[1] is Text) ==> pair_of(
            JsonModel::Array(items),
        ) is None,
{
    texts_are_read(seq![a, b]);
    assert(seq![a, b].map_values(|value: Seq<char>| JsonModel::Text(value)) =~= seq![
        JsonModel::Text(a),
        JsonModel::Text(b),
    ]);
}

/// A block tagged by number is the one tagged by name, and one given as an
/// array the one of the object of its fields.
pub proof fn blocks_may_be_tagged_and_placed(a: JsonModel, b: JsonModel)
    ensures
        ({
            let tag = JsonModel::Text("text"@);
            &&& block_of(JsonModel::Array(seq![tag, a, b])) == block_of(
                JsonModel::Object(map!["type"@ => tag, "text"@ => a, "severity"@ => b]),
            )
            &&& block_of(JsonModel::Array(seq![tag, a])) == block_of(
                JsonModel::Object(map!["type"@ => tag, "text"@ => a]),
            )
            &&& block_of(
                JsonModel::Array(
                    seq![JsonModel::Number(NumberModel::Unsigned(0)), a, b],
                ),
            ) == block_of(JsonModel::Array(seq![tag, a, b]))
        }),
        ({
            let tag = JsonModel::Text("kv"@);
            &&& block_of(JsonModel::Array(seq![tag, a])) == block_of(
                JsonModel::Object(map!["type"@ => tag, "items"@ => a]),
            )
            &&& block_of(
                JsonModel::Array(seq![JsonModel::Number(NumberModel::Unsigned(1)), a]),
            ) == block_of(JsonModel::Array(seq![tag, a]))
        }),
        ({
            let tag = JsonModel::Text("list"@);
            &&& block_of(JsonModel::Array(seq![tag, a])) == block_of(
                JsonModel::Object(map!["type"@ => tag, "items"@ => a]),
            )
            &&& block_of(
                JsonModel::Array(seq![JsonModel::Number(NumberModel::Unsigned(2)), a]),
            ) == block_of(JsonModel::Array(seq![tag, a]))
        }),
        ({
            let tag = JsonModel::Text("metric"@);
            &&& block_of(JsonModel::Array(seq![tag, a, b])) == block_of(
                JsonModel::Object(map!["type"@ => tag, "label"@ => a, "value"@ => b]),
            )
            &&& block_of(
                JsonModel::Array(
                    seq![JsonModel::Number(NumberModel::Unsigned(3)), a, b],
                ),
            ) == block_of(JsonModel::Array(seq![tag, a, b]))
        }),
{
    names_are_told_apart();
    field_names_are_told_apart();
    let written = seq!["type"@, "text"@, "severity"@];
    let listed = seq!["type"@, "items"@];
    let measured = seq!["type"@, "label"@, "value"@];
    assert(written[0] == "type"@ && written[1] == "text"@ && written[2] == "severity"@);
    assert(listed[0] == "type"@ && listed[1] == "items"@);
    assert(measured[0] == "type"@ && measured[1] == "label"@ && measured[2] == "value"@);
}

/// A severity is given by its name, or by an object of one field of that name
/// that holds null or nothing; anything else is none.
pub proof fn severities_go_by_name(name: Seq<char>, other: JsonModel)
    ensures
        severity_of(JsonModel::Text("info"@)) == Some(Severity::Info),
        severity_of(JsonModel::Text("success"@)) == Some(Severity::Success),
        severity_of(JsonModel::Text("warning"@)) == Some(Severity::Warning),
        severity_of(JsonModel::Text("error"@)) == Some(Severity::Error),
        name != "info"@ && name != "success"@ && name != "warning"@ && name != "error"@
            ==> severity_of(JsonModel::Text(name)) is None,
        severity_of(JsonModel::Object(map![name => JsonModel::Null])) == severity_of(
            JsonModel::Text(name),
        ),
        severity_of(
            JsonModel::Object(map![name => JsonModel::Object(Map::<Seq<char>, JsonModel>::empty())]),
        ) == severity_of(JsonModel::Text(name)),
        !(other is Text || other is Object) ==> severity_of(other) is None,
        severity_given(None) == Some(Severity::Info),
        severity_given(Some(other)) == severity_of(other),
{
    names_are_told_apart();
    let nothing = JsonModel::Object(Map::<Seq<char>, JsonModel>::empty());
    assert(carries_nothing(nothing));
    let a = JsonModel::Object(map![name => JsonModel::Null]);
    let b = JsonModel::Object(map![name => nothing]);
    assert(a->Object_0.contains_key(name) && b->Object_0.contains_key(name));
    assert forall|wanted: Seq<char>| #[trigger] names_alone(a, wanted) == (wanted == name) by {
        assert(seq![wanted][0] == wanted);
    }
    assert forall|wanted: Seq<char>| #[trigger] names_alone(b, wanted) == (wanted == name) by {
        assert(seq![wanted][0] == wanted);
    }
}

/// What contracts say of something read is whether it could be, and what it is.
pub proof fn read_models_are_faithful(block: Block, payload: UiPayload)
    ensures
        optional_block(Some(block)) == Some(block@),
        optional_block(None) is None,
        optional_payload(Some(payload)) == Some(payload@),
        optional_payload(None) is None,
{
}

/// What a block was read off held all of it and nothing more: a text and, if
/// any, a severity; rows that are all pairs; items that are all texts; a label
/// and a value that are texts.
pub proof fn read_blocks_were_whole(fields: Map<Seq<char>, JsonModel>, key: Seq<char>, i: int)
    ensures
        block_of(JsonModel::Object(fields)) matches Some(block) ==> ({
            &&& fields.contains_key("type"@)
            &&& block matches BlockModel::Text { text, severity } ==> fields.contains_key("text"@)
                && fields["text"@] == JsonModel::Text(text) && severity_given(
                if fields.contains_key("severity"@) {
                    Some(fields["severity"@])
                } else {
                    None
                },
            ) == Some(severity) && (fields.contains_key(key) ==> key == "type"@ || key == "text"@
                || key == "severity"@)
            &&& block matches BlockModel::Kv { items } ==> fields.contains_key("items"@)
                && fields["items"@] is Array && fields["items"@]->Array_0.len() == items.len() && (0
                <= i < items.len() ==> pair_of(fields["items"@]->Array_0[i]) == Some(items[i])) && (
            fields.contains_key(key) ==> key == "type"@ || key == "items"@)
            &&& block matches BlockModel::List { items } ==> fields.contains_key("items"@)
                && fields["items"@] is Array && fields["items"@]->Array_0.len() == items.len() && (0
                <= i < items.len() ==> fields["items"@]->Array_0[i] == JsonModel::Text(items[i]))
                && (fields.contains_key(key) ==> key == "type"@ || key == "items"@)
            &&& block matches BlockModel::Metric { label, value } ==> fields.contains_key("label"@)
                && fields["label"@] == JsonModel::Text(label) && fields.contains_key("value"@)
                && fields["value"@] == JsonModel::Text(value) && (fields.contains_key(key) ==> key
                == "type"@ || key == "label"@ || key == "value"@)
        }),
{
    let model = JsonModel::Object(fields);
    if block_of(model) is Some && fields.contains_key(key) {
        assert(model->Object_0.contains_key(key));
    }
    if let Some(BlockModel::Kv { items }) = block_of(model) {
        let held = fields["items"@];
        if 0 <= i < items.len() {
            assert(pair_of(held->Array_0[i]) is Some);
        }
    }
    if let Some(BlockModel::List { items }) = block_of(model) {
        let held = fields["items"@];
        if 0 <= i < items.len() {
            assert(held->Array_0[i] is Text);
        }
    }
}

/// What a payload was read off held all of it and nothing more.
pub proof fn read_payloads_were_whole(fields: Map<Seq<char>, JsonModel>, key: Seq<char>, i: int)
    ensures
        payload_of(JsonModel::Object(fields)) matches Some(payload) ==> ({
            let told = severity_given(
                if fields.contains_key("severity"@) {
                    Some(fields["severity"@])
                } else {
                    None
                },
            );
            &&& payload matches PayloadModel::Badge { text, severity, tooltip }
                ==> fields.contains_key("text"@) && fields["text"@] == JsonModel::Text(text) && told
                == Some(severity) && shows_text(fields, "tooltip"@, tooltip) && (
            fields.contains_key(key) ==> key == "kind"@ || key == "text"@ || key == "severity"@
                || key == "tooltip"@)
            &&& payload matches PayloadModel::Cell { text, severity, sort_key }
                ==> fields.contains_key("text"@) && fields["text"@] == JsonModel::Text(text) && told
                == Some(severity) && (match sort_key {
                Some(number) => fields.contains_key("sort_key"@) && (fields["sort_key"@] matches
                    JsonModel::Number(n) && json::float_bits(n) == Some(number.bits)),
                None => fields.contains_key("sort_key"@) ==> fields["sort_key"@] is Null,
            }) && (fields.contains_key(key) ==> key == "kind"@ || key == "text"@ || key
                == "severity"@ || key == "sort_key"@)
            &&& payload matches PayloadModel::SortKey { key: number, reason }
                ==> fields.contains_key("key"@) && (fields["key"@] matches JsonModel::Number(n)
                && json::float_bits(n) == Some(number.bits)) && shows_text(
                fields,
                "reason"@,
                reason,
            ) && (fields.contains_key(key) ==> key == "kind"@ || key == "key"@ || key == "reason"@)
            &&& payload matches PayloadModel::Facets { values } ==> fields.contains_key("values"@)
                && fields["values"@] is Array && fields["values"@]->Array_0.len() == values.len()
                && (0 <= i < values.len() ==> fields["values"@]->Array_0[i] == JsonModel::Text(
                values[i],
            )) && (fields.contains_key(key) ==> key == "kind"@ || key == "values"@)
            &&& payload matches PayloadModel::Blocks { severity, blocks } ==> told == Some(severity)
                && fields.contains_key("blocks"@) && fields["blocks"@] is Array
                && fields["blocks"@]->Array_0.len() == blocks.len() && (0 <= i < blocks.len()
                ==> block_of(fields["blocks"@]->Array_0[i]) == Some(blocks[i])) && (
            fields.contains_key(key) ==> key == "kind"@ || key == "severity"@ || key == "blocks"@)
        }),
{
    let model = JsonModel::Object(fields);
    if payload_of(model) is Some && fields.contains_key(key) {
        assert(model->Object_0.contains_key(key));
    }
    if let Some(PayloadModel::Facets { values }) = payload_of(model) {
        let held = fields["values"@];
        if 0 <= i < values.len() {
            assert(held->Array_0[i] is Text);
        }
    }
    if let Some(PayloadModel::Blocks { blocks, .. }) = payload_of(model) {
        let held = fields["blocks"@];
        if 0 <= i < blocks.len() {
            assert(block_of(held->Array_0[i]) is Some);
        }
    }
}

} // verus!
