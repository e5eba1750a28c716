//! Structured configuration values: a tagged union of null, boolean, number,
//! string, list and ordered string-keyed map.
use vstd::prelude::*;

verus! {

/// A number inside a configuration value.
#[derive(Debug, PartialEq)]
pub enum ConfigNumber {
    /// A non-negative integer.
    PosInt(u64),
    /// A negative integer.
    NegInt(i64),
    /// A number with a fraction or an exponent, held as its decimal text.
    Float(String),
}

/// An arbitrary structured configuration value.
///
/// A map keeps its entries in insertion order.
#[derive(Debug, PartialEq)]
pub enum ConfigValue {
    Null,
    Bool(bool),
    Number(ConfigNumber),
    String(String),
    Array(Vec<ConfigValue>),
    Object(Vec<(String, ConfigValue)>),
}

/// Mathematical model of a [`ConfigNumber`].
pub enum NumberView {
    PosInt(u64),
    NegInt(i64),
    Float(Seq<char>),
}

/// Mathematical model of a [`ConfigValue`].
pub enum JsonView {
    Null,
    Bool(bool),
    Number(NumberView),
    String(Seq<char>),
    Array(Seq<JsonView>),
    Object(Seq<(Seq<char>, JsonView)>),
}

impl View for ConfigNumber {
    type V = NumberView;

    open spec fn view(&self) -> NumberView {
        match self {
            ConfigNumber::PosInt(n) => NumberView::PosInt(*n),
            ConfigNumber::NegInt(n) => NumberView::NegInt(*n),
            ConfigNumber::Float(t) => NumberView::Float(t@),
        }
    }
}

/// The model of a value, defined by recursion on its structure.
pub open spec fn json_view(value: ConfigValue) -> JsonView
    decreases value,
{
    match value {
        ConfigValue::Null => JsonView::Null,
        ConfigValue::Bool(b) => JsonView::Bool(b),
        ConfigValue::Number(n) => JsonView::Number(n@),
        ConfigValue::String(s) => JsonView::String(s@),
        ConfigValue::Array(items) => JsonView::Array(
            Seq::new(
                items.len() as nat,
                |i: int|
                    if 0 <= i < items.len() {
                        json_view(items[i])
                    } else {
                        JsonView::Null
                    },
            ),
        ),
        ConfigValue::Object(fields) => JsonView::Object(
            Seq::new(
                fields.len() as nat,
                |i: int|
                    if 0 <= i < fields.len() {
                        (fields[i].0@, json_view(fields[i].1))
                    } else {
                        (Seq::empty(), JsonView::Null)
                    },
            ),
        ),
    }
}

impl View for ConfigValue {
    type V = JsonView;

    open spec fn view(&self) -> JsonView {
        json_view(*self)
    }
}

/// The models of a list of values, element by element.
pub open spec fn value_views(items: Seq<ConfigValue>) -> Seq<JsonView> {
    Seq::new(items.len(), |i: int| items[i]@)
}

/// The models of a list of map entries, entry by entry.
pub open spec fn field_views(fields: Seq<(String, ConfigValue)>) -> Seq<(Seq<char>, JsonView)> {
    Seq::new(fields.len(), |i: int| (fields[i].0@, fields[i].1@))
}

/// The model of a list is the list of its elements' models.
pub proof fn lemma_array_view(items: Vec<ConfigValue>)
    ensures
        ConfigValue::Array(items)@ == JsonView::Array(value_views(items@)),
{
    reveal_with_fuel(json_view, 2);
    assert(ConfigValue::Array(items)@->Array_0 =~= value_views(items@));
}

/// The model of a map is the list of its entries' models.
pub proof fn lemma_object_view(fields: Vec<(String, ConfigValue)>)
    ensures
        ConfigValue::Object(fields)@ == JsonView::Object(field_views(fields@)),
{
    reveal_with_fuel(json_view, 2);
    assert(ConfigValue::Object(fields)@->Object_0 =~= field_views(fields@));
}

/// The value paired with the first occurrence of a name, searching from
/// index `from`.
pub open spec fn first_value<V>(pairs: Seq<(Seq<char>, V)>, name: Seq<char>, from: int) -> Option<V>
    decreases pairs.len() - from,
{
    if from < 0 || from >= pairs.len() {
        None
    } else if pairs[from].0 == name {
        Some(pairs[from].1)
    } else {
        first_value(pairs, name, from + 1)
    }
}

impl JsonView {
    /// The value of the first entry with this name, where the value is a
    /// map that has one.
    pub open spec fn field(self, name: Seq<char>) -> Option<JsonView> {
        match self {
            JsonView::Object(fields) => first_value(fields, name, 0),
            _ => None,
        }
    }
}

impl ConfigNumber {
    /// The number that stands for a signed integer: non-negative integers
    /// are `PosInt`, the others `NegInt`.
    pub fn from_i64(n: i64) -> (r: ConfigNumber)
        ensures
            n >= 0 ==> r@ == NumberView::PosInt(n as u64),
            n < 0 ==> r@ == NumberView::NegInt(n),
    {
        if n >= 0 {
            ConfigNumber::PosInt(n as u64)
        } else {
            ConfigNumber::NegInt(n)
        }
    }
}

impl ConfigValue {
    /// The value of the first entry with this name, where the value is a
    /// map that has one.
    pub fn field(&self, name: &str) -> (r: Option<&ConfigValue>)
        ensures
            r is Some <==> self@.field(name@) is Some,
            r matches Some(v) ==> Some(v@) == self@.field(name@),
    {
        match self {
            ConfigValue::Object(fields) => {
                proof {
                    lemma_object_view(*fields);
                }
                let needle = name.to_owned();
                let mut i: usize = 0;
                while i < fields.len()
                    invariant
                        i <= fields.len(),
                        needle@ == name@,
                        self@.field(name@) == first_value(field_views(fields@), name@, 0),
                        first_value(field_views(fields@), name@, 0) == first_value(
                            field_views(fields@),
                            name@,
                            i as int,
                        ),
                    decreases fields.len() - i,
                {
                    if fields[i].0 == needle {
                        return Some(&fields[i].1);
                    }
                    i += 1;
                }
                None
            },
            _ => None,
        }
    }
}

impl Clone for ConfigNumber {
    fn clone(&self) -> (r: ConfigNumber)
        ensures
            r@ == self@,
    {
        match self {
            ConfigNumber::PosInt(n) => ConfigNumber::PosInt(*n),
            ConfigNumber::NegInt(n) => ConfigNumber::NegInt(*n),
            ConfigNumber::Float(t) => ConfigNumber::Float(t.clone()),
        }
    }
}

/// A deep copy of a list of values.
pub fn clone_values(items: &Vec<ConfigValue>) -> (r: Vec<ConfigValue>)
    ensures
        value_views(r@) == value_views(items@),
    decreases items,
{
    let mut out: Vec<ConfigValue> = Vec::new();
    let mut i: usize = 0;
    while i < items.len()
        invariant
            i <= items.len(),
            out.len() == i,
            forall|j: int| 0 <= j < i ==> out[j]@ == items[j]@,
        decreases items.len() - i,
    {
        let copy = items[i].clone();
        out.push(copy);
        i += 1;
    }
    assert(value_views(out@) =~= value_views(items@));
    out
}

/// A deep copy of a list of map entries.
pub fn clone_fields(fields: &Vec<(String, ConfigValue)>) -> (r: Vec<(String, ConfigValue)>)
    ensures
        field_views(r@) == field_views(fields@),
    decreases fields,
{
    let mut out: Vec<(String, ConfigValue)> = Vec::new();
    let mut i: usize = 0;
    while i < fields.len()
        invariant
            i <= fields.len(),
            out.len() == i,
            forall|j: int| 0 <= j < i ==> out[j].0@ == fields[j].0@ && out[j].1@ == fields[j].1@,
        decreases fields.len() - i,
    {
        let name = fields[i].0.clone();
        let value = fields[i].1.clone();
        out.push((name, value));
        i += 1;
    }
    assert(field_views(out@) =~= field_views(fields@));
    out
}

impl Clone for ConfigValue {
    fn clone(&self) -> (r: ConfigValue)
        ensures
            r@ == self@,
        decreases self,
    {
        match self {
            ConfigValue::Null => ConfigValue::Null,
            ConfigValue::Bool(b) => ConfigValue::Bool(*b),
            ConfigValue::Number(n) => ConfigValue::Number(n.clone()),
            ConfigValue::String(s) => ConfigValue::String(s.clone()),
            ConfigValue::Array(items) => {
                let out = clone_values(items);
                proof {
                    lemma_array_view(*items);
                    lemma_array_view(out);
                }
                ConfigValue::Array(out)
            },
            ConfigValue::Object(fields) => {
                let out = clone_fields(fields);
                proof {
                    lemma_object_view(*fields);
                    lemma_object_view(out);
                }
                ConfigValue::Object(out)
            },
        }
    }
}

} // verus!
