//! YAML documents as `serde_yaml` reads them, and the data they hold.
use serde_yaml::Value;
use vstd::prelude::*;

verus! {

/// What a YAML value holds.
pub enum YamlData {
    /// A string.
    Text(Seq<char>),
    /// A whole number that is not negative.
    Number(u64),
    /// A sequence.
    List(Seq<YamlData>),
    /// A mapping, with its keys in order.
    Mapping(Seq<(YamlData, YamlData)>),
    /// A value with a tag.
    Tagged(Box<YamlData>),
    /// Any other scalar.
    Other,
}

impl YamlData {
    /// What is left when the tags are taken off.
    pub open spec fn untagged(self) -> YamlData
        decreases self,
    {
        match self {
            YamlData::Tagged(inner) => inner.untagged(),
            other => other,
        }
    }

    /// The text that a value is, below its tags.
    pub open spec fn text(self) -> Option<Seq<char>> {
        match self.untagged() {
            YamlData::Text(text) => Some(text),
            _ => None,
        }
    }

    /// The number that a value is, below its tags.
    pub open spec fn number(self) -> Option<u64> {
        match self.untagged() {
            YamlData::Number(number) => Some(number),
            _ => None,
        }
    }

    /// The items of a sequence, below its tags. Anything else has none.
    pub open spec fn items(self) -> Seq<YamlData> {
        match self.untagged() {
            YamlData::List(items) => items,
            _ => Seq::empty(),
        }
    }

    /// The entries of a mapping, below its tags. Anything else has none.
    pub open spec fn entries(self) -> Seq<(YamlData, YamlData)> {
        match self.untagged() {
            YamlData::Mapping(entries) => entries,
            _ => Seq::empty(),
        }
    }
}

/// Declares a YAML value.
#[verifier::external_type_specification]
#[verifier::external_body]
pub struct ExValue(Value);

/// What a value holds.
pub uninterp spec fn yaml_data(value: Value) -> YamlData;

/// The data of a YAML text, or nothing where the text is not one YAML document.
pub uninterp spec fn yaml_of(text: Seq<char>) -> Option<YamlData>;

/// `serde_yaml::from_str` reads a value from a text. Whether it succeeds, and what data the value
/// then holds, depends on the text alone.
#[verifier::external_body]
pub(crate) fn parse_yaml(text: &str) -> (value: Option<Value>)
    ensures
        match value {
            Some(value) => yaml_of(text@) == Some(yaml_data(value)),
            None => yaml_of(text@) is None,
        },
{
    serde_yaml::from_str(text).ok()
}

/// `Value::as_str` gives the string that a value is, below its tags.
#[verifier::external_body]
pub(crate) fn text_of(value: &Value) -> (text: Option<&str>)
    ensures
        match text {
            Some(text) => yaml_data(*value).text() == Some(text@),
            None => yaml_data(*value).text() is None,
        },
{
    value.as_str()
}

/// `Value::as_u64` gives the whole number that a value is, below its tags.
#[verifier::external_body]
pub(crate) fn number_of(value: &Value) -> (number: Option<u64>)
    ensures
        number == yaml_data(*value).number(),
{
    value.as_u64()
}

/// `Value::as_sequence` gives the items of a sequence, below its tags.
#[verifier::external_body]
pub(crate) fn items_of(value: &Value) -> (items: &[Value])
    ensures
        items@.len() == yaml_data(*value).items().len(),
        forall|i: int|
            0 <= i < items@.len() ==> yaml_data(#[trigger] items@[i]) == yaml_data(
                *value,
            ).items()[i],
{
    value.as_sequence().map_or(&[], Vec::as_slice)
}

/// `Mapping::iter`, by way of `Value::as_mapping`, walks over the entries of a mapping in order,
/// below its tags.
#[verifier::external_body]
pub(crate) fn entries_of(value: &Value) -> (entries: Vec<(&Value, &Value)>)
    ensures
        entries@.len() == yaml_data(*value).entries().len(),
        forall|i: int|
            0 <= i < entries@.len() ==> {
                let entry = #[trigger] entries@[i];
                &&& yaml_data(*entry.0) == yaml_data(*value).entries()[i].0
                &&& yaml_data(*entry.1) == yaml_data(*value).entries()[i].1
            },
{
    value.as_mapping().map(|mapping| mapping.iter().collect()).unwrap_or_default()
}

/// `Value::Tagged` is a value with a tag.
#[verifier::external_body]
pub(crate) fn is_tagged(value: &Value) -> (tagged: bool)
    ensures
        tagged == (yaml_data(*value) is Tagged),
{
    matches!(value, Value::Tagged(_))
}

} // verus!
