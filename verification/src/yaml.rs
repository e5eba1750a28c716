//! YAML documents, read by `serde_yaml`, and their conversion to
//! configuration values.
use crate::json::{compact_text, json_compact};
use crate::merge::{lemma_upsert, upsert};
use crate::models::{distinct_keys, find_item, lift, ConfigItem, ItemView};
use crate::tree::push_lifted;
use crate::value::{
    field_views, lemma_array_view, lemma_object_view, value_views, ConfigNumber, ConfigValue,
    JsonView, NumberView,
};
use vstd::prelude::*;

verus! {

/// `serde_yaml::Value`: a YAML document as `serde_yaml` holds it. Nothing
/// is known of what is inside.
#[verifier::external_type_specification]
#[verifier::external_body]
pub struct ExYamlTree(serde_yaml::Value);

/// `serde_yaml::Number`: a YAML number as `serde_yaml` holds it. Nothing is
/// known of what is inside.
#[verifier::external_type_specification]
#[verifier::external_body]
pub struct ExYamlNumber(serde_yaml::Number);

/// A node of a YAML document.
#[derive(Debug, PartialEq)]
pub enum YamlNode {
    Null,
    Bool(bool),
    /// A number: as a signed 64-bit integer where it is one, and as the
    /// JSON text of its floating-point value where that value is finite.
    Number { integer: Option<i64>, decimal: Option<String> },
    String(String),
    Sequence(Vec<YamlNode>),
    Mapping(Vec<(YamlNode, YamlNode)>),
    /// A node under a tag; the tag itself is not kept.
    Tagged(Box<YamlNode>),
}

/// Model of a [`YamlNode`].
pub enum YamlView {
    Null,
    Bool(bool),
    Number { integer: Option<i64>, decimal: Option<Seq<char>> },
    String(Seq<char>),
    Sequence(Seq<YamlView>),
    Mapping(Seq<(YamlView, YamlView)>),
    Tagged(Box<YamlView>),
}

/// The model of a node, defined by recursion on its structure.
pub open spec fn yaml_view(node: YamlNode) -> YamlView
    decreases node,
{
    match node {
        YamlNode::Null => YamlView::Null,
        YamlNode::Bool(b) => YamlView::Bool(b),
        YamlNode::Number { integer, decimal } => YamlView::Number {
            integer: integer,
            decimal: crate::models::text_of(decimal),
        },
        YamlNode::String(s) => YamlView::String(s@),
        YamlNode::Sequence(items) => YamlView::Sequence(
            Seq::new(
                items.len() as nat,
                |i: int|
                    if 0 <= i < items.len() {
                        yaml_view(items[i])
                    } else {
                        YamlView::Null
                    },
            ),
        ),
        YamlNode::Mapping(entries) => YamlView::Mapping(
            Seq::new(
                entries.len() as nat,
                |i: int|
                    if 0 <= i < entries.len() {
                        (yaml_view(entries[i].0), yaml_view(entries[i].1))
                    } else {
                        (YamlView::Null, YamlView::Null)
                    },
            ),
        ),
        YamlNode::Tagged(inner) => YamlView::Tagged(Box::new(yaml_view(*inner))),
    }
}

impl View for YamlNode {
    type V = YamlView;

    open spec fn view(&self) -> YamlView {
        yaml_view(*self)
    }
}

/// The models of a list of nodes.
pub open spec fn node_views(items: Seq<YamlNode>) -> Seq<YamlView> {
    Seq::new(items.len(), |i: int| items[i]@)
}

/// The models of a list of mapping entries.
pub open spec fn entry_views(entries: Seq<(YamlNode, YamlNode)>) -> Seq<(YamlView, YamlView)> {
    Seq::new(entries.len(), |i: int| (entries[i].0@, entries[i].1@))
}

/// The model of a sequence is the list of its elements' models.
pub proof fn lemma_sequence_view(items: Vec<YamlNode>)
    ensures
        YamlNode::Sequence(items)@ == YamlView::Sequence(node_views(items@)),
{
    reveal_with_fuel(yaml_view, 2);
    assert(YamlNode::Sequence(items)@->Sequence_0 =~= node_views(items@));
}

/// The model of a mapping is the list of its entries' models.
pub proof fn lemma_mapping_view(entries: Vec<(YamlNode, YamlNode)>)
    ensures
        YamlNode::Mapping(entries)@ == YamlView::Mapping(entry_views(entries@)),
{
    reveal_with_fuel(yaml_view, 2);
    assert(YamlNode::Mapping(entries)@->Mapping_0 =~= entry_views(entries@));
}

/// The document that `serde_yaml::from_str` reads from a text; `None`
/// where the text is not one YAML document.
pub uninterp spec fn parsed_yaml(text: Seq<char>) -> Option<YamlView>;

/// Reads a `serde_yaml::Number`: `integer` is what `as_i64` gives; `decimal`
/// is the text that `serde_json` writes for what `as_f64` gives, where
/// `serde_json::Number::from_f64` takes it, that is where it is finite.
#[verifier::external_body]
fn number_node(n: &serde_yaml::Number) -> YamlNode {
    YamlNode::Number {
        integer: n.as_i64(),
        decimal: n.as_f64().and_then(serde_json::Number::from_f64).map(|x| x.to_string()),
    }
}

/// Reads a `serde_yaml::Value`, variant by variant; a mapping's entries
/// come in the order of `serde_yaml::Mapping`, and of a tagged value the
/// value alone is kept.
#[verifier::external_body]
fn node_of(v: serde_yaml::Value) -> YamlNode {
    match v {
        serde_yaml::Value::Null => YamlNode::Null,
        serde_yaml::Value::Bool(b) => YamlNode::Bool(b),
        serde_yaml::Value::Number(n) => number_node(&n),
        serde_yaml::Value::String(s) => YamlNode::String(s),
        serde_yaml::Value::Sequence(s) => YamlNode::Sequence(s.into_iter().map(node_of).collect()),
        serde_yaml::Value::Mapping(m) => YamlNode::Mapping(
            m.into_iter().map(|(k, x)| (node_of(k), node_of(x))).collect(),
        ),
        serde_yaml::Value::Tagged(t) => YamlNode::Tagged(Box::new(node_of(t.value))),
    }
}

/// `serde_yaml::from_str` for a `serde_yaml::Value`: the document that the
/// text holds, or the message of the error where the text is not one YAML
/// document.
#[verifier::external_body]
pub(crate) fn yaml_parse(text: &str) -> (r: Result<YamlNode, String>)
    ensures
        r matches Ok(node) ==> parsed_yaml(text@) == Some(node@),
        r is Err ==> parsed_yaml(text@) is None,
{
    serde_yaml::from_str::<serde_yaml::Value>(text).map(node_of).map_err(|e| e.to_string())
}

/// The number of a configuration value that stands for a signed integer.
pub open spec fn int_number(n: i64) -> NumberView {
    if n >= 0 {
        NumberView::PosInt(n as u64)
    } else {
        NumberView::NegInt(n)
    }
}

/// The key under which a mapping entry is kept: a string key is itself;
/// any other key is the compact JSON text of its conversion; an entry
/// whose key has no such text is left out.
pub open spec fn key_text(key: YamlView, converted_key: JsonView) -> Option<Seq<char>> {
    match key {
        YamlView::String(s) => Some(s),
        _ => compact_text(converted_key),
    }
}

/// The entries of a map, collected in order: an entry without a key is
/// left out, and an entry whose key came before takes the place of the
/// earlier one.
pub open spec fn collected(pairs: Seq<(Option<Seq<char>>, JsonView)>) -> Seq<ItemView>
    decreases pairs.len(),
{
    if pairs.len() == 0 {
        Seq::empty()
    } else {
        let front = collected(pairs.drop_last());
        match pairs.last().0 {
            Some(key) => upsert(front, ItemView { key: key, value: pairs.last().1 }),
            None => front,
        }
    }
}

/// Items as the entries of a map.
pub open spec fn fields_of(items: Seq<ItemView>) -> Seq<(Seq<char>, JsonView)> {
    Seq::new(items.len(), |i: int| (items[i].key, items[i].value))
}

/// The entries of a map as items.
pub open spec fn items_in(fields: Seq<(Seq<char>, JsonView)>) -> Seq<ItemView> {
    Seq::new(fields.len(), |i: int| ItemView { key: fields[i].0, value: fields[i].1 })
}

/// The configuration value that a YAML node becomes. Null, booleans and
/// strings stay; a number is an integer where it is one, else its finite
/// floating-point value, else null; a sequence becomes a list; a mapping
/// becomes a map; a tagged node becomes what its value becomes.
pub open spec fn converted(node: YamlView) -> JsonView
    decreases node, 1nat,
{
    match node {
        YamlView::Null => JsonView::Null,
        YamlView::Bool(b) => JsonView::Bool(b),
        YamlView::Number { integer, decimal } => match (integer, decimal) {
            (Some(i), _) => JsonView::Number(int_number(i)),
            (None, Some(t)) => JsonView::Number(NumberView::Float(t)),
            (None, None) => JsonView::Null,
        },
        YamlView::String(s) => JsonView::String(s),
        YamlView::Sequence(items) => JsonView::Array(
            Seq::new(
                items.len(),
                |i: int|
                    if 0 <= i < items.len() {
                        converted(items[i])
                    } else {
                        JsonView::Null
                    },
            ),
        ),
        YamlView::Mapping(_) => JsonView::Object(fields_of(collected(mapping_pairs(node)))),
        YamlView::Tagged(inner) => converted(*inner),
    }
}

/// The entries of a mapping, each with the key under which it is kept and
/// its converted value.
pub open spec fn mapping_pairs(node: YamlView) -> Seq<(Option<Seq<char>>, JsonView)>
    decreases node, 0nat,
{
    match node {
        YamlView::Mapping(entries) => Seq::new(
            entries.len(),
            |i: int|
                if 0 <= i < entries.len() {
                    (key_text(entries[i].0, converted(entries[i].0)), converted(entries[i].1))
                } else {
                    (None, JsonView::Null)
                },
        ),
        _ => Seq::empty(),
    }
}

/// The converted entries of a mapping, before they are collected.
pub open spec fn converted_pairs(entries: Seq<(YamlView, YamlView)>) -> Seq<
    (Option<Seq<char>>, JsonView),
> {
    Seq::new(
        entries.len(),
        |i: int| (key_text(entries[i].0, converted(entries[i].0)), converted(entries[i].1)),
    )
}

/// What a mapping becomes, stated over its converted entries.
pub proof fn lemma_converted_mapping(entries: Seq<(YamlView, YamlView)>)
    ensures
        converted(YamlView::Mapping(entries)) == JsonView::Object(
            fields_of(collected(converted_pairs(entries))),
        ),
{
    reveal_with_fuel(converted, 2);
    reveal_with_fuel(mapping_pairs, 2);
    assert(mapping_pairs(YamlView::Mapping(entries)) =~= converted_pairs(entries));
}

/// What a sequence becomes, element by element.
pub proof fn lemma_converted_sequence(items: Seq<YamlView>)
    ensures
        converted(YamlView::Sequence(items)) == JsonView::Array(
            Seq::new(items.len(), |i: int| converted(items[i])),
        ),
{
    reveal_with_fuel(converted, 2);
    assert(converted(YamlView::Sequence(items))->Array_0 =~= Seq::new(
        items.len(),
        |i: int| converted(items[i]),
    ));
}

/// Collected entries hold no key twice.
pub proof fn lemma_collected_distinct(pairs: Seq<(Option<Seq<char>>, JsonView)>)
    ensures
        distinct_keys(collected(pairs)),
    decreases pairs.len(),
{
    if pairs.len() > 0 {
        lemma_collected_distinct(pairs.drop_last());
        match pairs.last().0 {
            Some(key) => {
                lemma_upsert(
                    collected(pairs.drop_last()),
                    ItemView { key: key, value: pairs.last().1 },
                    key,
                );
            },
            None => {},
        }
    }
}

/// A map that a YAML node becomes holds no key twice.
pub proof fn lemma_converted_distinct(node: YamlView)
    ensures
        converted(node) is Object ==> distinct_keys(items_in(converted(node)->Object_0)),
    decreases node,
{
    match node {
        YamlView::Mapping(entries) => {
            lemma_converted_mapping(entries);
            let items = collected(converted_pairs(entries));
            lemma_collected_distinct(converted_pairs(entries));
            assert(items_in(fields_of(items)) =~= items);
        },
        YamlView::Tagged(inner) => {
            lemma_converted_distinct(*inner);
        },
        _ => {},
    }
}

/// The items that the text of a YAML file holds have distinct keys.
pub proof fn lemma_yaml_items_distinct(text: Seq<char>)
    ensures
        yaml_items(text) matches Some(items) ==> distinct_keys(items),
{
    match parsed_yaml(text) {
        Some(node) => {
            lemma_converted_distinct(node);
        },
        None => {},
    }
}

/// The elements of a sequence, converted.
fn convert_items(items: &Vec<YamlNode>) -> (r: Vec<ConfigValue>)
    ensures
        r@.len() == items@.len(),
        forall|i: int| 0 <= i < items@.len() ==> (#[trigger] r@[i])@ == converted(items@[i]@),
    decreases items,
{
    let mut out: Vec<ConfigValue> = Vec::new();
    let mut i: usize = 0;
    while i < items.len()
        invariant
            i <= items.len(),
            out@.len() == i,
            forall|j: int| 0 <= j < i ==> (#[trigger] out@[j])@ == converted(items@[j]@),
        decreases items.len() - i,
    {
        let value = yaml_to_json(&items[i]);
        out.push(value);
        i += 1;
    }
    out
}

/// The entries of a mapping, converted and collected.
fn convert_entries(entries: &Vec<(YamlNode, YamlNode)>) -> (r: Vec<ConfigItem>)
    ensures
        lift(r@) == collected(converted_pairs(entry_views(entries@))),
    decreases entries,
{
    let ghost all = converted_pairs(entry_views(entries@));
    let mut out: Vec<ConfigItem> = Vec::new();
    let mut i: usize = 0;
    assert(all.take(0) =~= Seq::empty());
    assert(lift(out@) =~= Seq::empty());
    while i < entries.len()
        invariant
            i <= entries.len(),
            all == converted_pairs(entry_views(entries@)),
            lift(out@) == collected(all.take(i as int)),
        decreases entries.len() - i,
    {
        proof {
            assert(all.take(i as int + 1).drop_last() =~= all.take(i as int));
            assert(all.take(i as int + 1).last() == all[i as int]);
        }
        let key = match &entries[i].0 {
            YamlNode::String(s) => Some(s.clone()),
            other => {
                let as_value = yaml_to_json(other);
                json_compact(&as_value)
            },
        };
        match key {
            Some(k) => {
                let value = yaml_to_json(&entries[i].1);
                let item = ConfigItem { key: k, value: value };
                match find_item(&out, item.key.as_str()) {
                    Some(at) => {
                        let ghost before = out@;
                        out[at] = item;
                        assert(lift(out@) =~= lift(before).update(at as int, item@));
                    },
                    None => {
                        push_lifted(&mut out, item);
                    },
                }
            },
            None => {},
        }
        i += 1;
    }
    assert(all.take(entries.len() as int) =~= all);
    out
}

/// Items as the entries of a map.
fn into_fields(items: Vec<ConfigItem>) -> (r: Vec<(String, ConfigValue)>)
    ensures
        field_views(r@) == fields_of(lift(items@)),
{
    let mut out: Vec<(String, ConfigValue)> = Vec::new();
    let mut i: usize = 0;
    while i < items.len()
        invariant
            i <= items.len(),
            out@.len() == i,
            forall|j: int|
                0 <= j < i ==> (#[trigger] out@[j]).0@ == items@[j].key@ && out@[j].1@
                    == items@[j].value@,
        decreases items.len() - i,
    {
        out.push((items[i].key.clone(), items[i].value.clone()));
        i += 1;
    }
    assert(field_views(out@) =~= fields_of(lift(items@)));
    out
}

/// Converts a YAML node to a configuration value.
pub fn yaml_to_json(yaml: &YamlNode) -> (r: ConfigValue)
    ensures
        r@ == converted(yaml@),
    decreases yaml,
{
    match yaml {
        YamlNode::Null => ConfigValue::Null,
        YamlNode::Bool(b) => ConfigValue::Bool(*b),
        YamlNode::Number { integer, decimal } => match integer {
            Some(i) => ConfigValue::Number(ConfigNumber::from_i64(*i)),
            None => match decimal {
                Some(t) => ConfigValue::Number(ConfigNumber::Float(t.clone())),
                None => ConfigValue::Null,
            },
        },
        YamlNode::String(s) => ConfigValue::String(s.clone()),
        YamlNode::Sequence(items) => {
            let out = convert_items(items);
            proof {
                lemma_sequence_view(*items);
                lemma_converted_sequence(node_views(items@));
                lemma_array_view(out);
                assert(value_views(out@) =~= Seq::new(
                    node_views(items@).len(),
                    |i: int| converted(node_views(items@)[i]),
                ));
            }
            ConfigValue::Array(out)
        },
        YamlNode::Mapping(entries) => {
            let items = convert_entries(entries);
            let fields = into_fields(items);
            proof {
                lemma_mapping_view(*entries);
                lemma_converted_mapping(entry_views(entries@));
                lemma_object_view(fields);
            }
            ConfigValue::Object(fields)
        },
        YamlNode::Tagged(inner) => yaml_to_json(inner),
    }
}

/// The items that the text of a YAML file holds: the entries of its
/// top-level mapping, converted. `None` where the text is no YAML
/// document, or the document is no mapping.
pub open spec fn yaml_items(text: Seq<char>) -> Option<Seq<ItemView>> {
    match parsed_yaml(text) {
        Some(node) => match converted(node) {
            JsonView::Object(fields) => Some(items_in(fields)),
            _ => None,
        },
        None => None,
    }
}

/// The items that a converted document holds, where it is a map.
pub fn map_items(document: ConfigValue) -> (r: Option<Vec<ConfigItem>>)
    ensures
        r is Some <==> document@ is Object,
        r matches Some(items) ==> lift(items@) == items_in(document@->Object_0),
{
    match document {
        ConfigValue::Object(fields) => {
            proof {
                lemma_object_view(fields);
            }
            let mut out: Vec<ConfigItem> = Vec::new();
            let mut i: usize = 0;
            while i < fields.len()
                invariant
                    i <= fields.len(),
                    out@.len() == i,
                    forall|j: int|
                        0 <= j < i ==> (#[trigger] out@[j])@ == (ItemView {
                            key: fields@[j].0@,
                            value: fields@[j].1@,
                        }),
                decreases fields.len() - i,
            {
                out.push(ConfigItem { key: fields[i].0.clone(), value: fields[i].1.clone() });
                i += 1;
            }
            assert(lift(out@) =~= items_in(field_views(fields@)));
            Some(out)
        },
        _ => None,
    }
}

/// Reads the text of a YAML file as a list of items: the entries of its
/// top-level mapping. `None` where the text is no YAML document, or the
/// document is no mapping.
pub fn load_yaml_map(content: &str) -> (r: Option<Vec<ConfigItem>>)
    ensures
        r is Some <==> yaml_items(content@) is Some,
        r matches Some(items) ==> Some(lift(items@)) == yaml_items(content@),
{
    match yaml_parse(content) {
        Ok(node) => map_items(yaml_to_json(&node)),
        Err(_) => None,
    }
}

} // verus!
