//! A plain model of a parsed YAML document, as much of it as a Punfile is
//! read by: scalars, sequences, and mappings whose entries keep the order of
//! the document. Lookups follow `serde_yaml::Value`: a string key finds the
//! entry whose key is that string; any other kind of value has no entries.
use vstd::prelude::*;

use crate::text::str_eq;

verus! {

/// A YAML value. A mapping holds its entries in document order.
#[derive(Debug, PartialEq)]
pub enum YamlValue {
    Null,
    Bool(bool),
    /// A number, held as its printed text.
    Number(String),
    Text(String),
    Sequence(Vec<YamlValue>),
    Mapping(Vec<(YamlValue, YamlValue)>),
}

#[verifier::external_type_specification]
#[verifier::external_body]
pub struct ExSerdeYamlValue(serde_yaml::Value);

/// What `serde_yaml` reads from a text: the document, in this model, or the
/// text of its error (its `Debug` form) when the text is not valid YAML.
pub uninterp spec fn yaml_document(text: Seq<char>) -> Result<YamlValue, Seq<char>>;

/// Calls `serde_yaml::from_str::<serde_yaml::Value>` on `text`, converts the
/// value it reads into the model, and gives an error as its `Debug` text.
/// Claimed: the result depends on the text alone (the parse is a function of
/// its input). Which document or which error text a given text yields is left
/// unstated beyond that name.
#[verifier::external_body]
pub(crate) fn parse_yaml(text: &str) -> (r: Result<YamlValue, String>)
    ensures
        match r {
            Ok(d) => yaml_document(text@) == Ok::<YamlValue, Seq<char>>(d),
            Err(e) => yaml_document(text@) == Err::<YamlValue, Seq<char>>(e@),
        },
{
    match serde_yaml::from_str::<serde_yaml::Value>(text) {
        Ok(v) => Ok(from_serde_value(&v)),
        Err(e) => Err(format!("{:?}", e)),
    }
}

/// Converts a `serde_yaml::Value` into the model, variant for variant: a
/// number by its text (`Display`), a mapping's entries in its iteration order.
#[verifier::external_body]
fn from_serde_value(v: &serde_yaml::Value) -> YamlValue {
    match v {
        serde_yaml::Value::Null => YamlValue::Null,
        serde_yaml::Value::Bool(b) => YamlValue::Bool(*b),
        serde_yaml::Value::Number(n) => YamlValue::Number(n.to_string()),
        serde_yaml::Value::String(s) => YamlValue::Text(s.clone()),
        serde_yaml::Value::Sequence(items) => YamlValue::Sequence(
            items.iter().map(from_serde_value).collect(),
        ),
        serde_yaml::Value::Mapping(m) => YamlValue::Mapping(
            m.iter().map(|(k, x)| (from_serde_value(k), from_serde_value(x))).collect(),
        ),
    }
}

/// The value stored under the first entry of `entries` whose key is the string `key`.
pub open spec fn lookup(entries: Seq<(YamlValue, YamlValue)>, key: Seq<char>) -> Option<YamlValue>
    decreases entries.len(),
{
    if entries.len() == 0 {
        None
    } else if lookup(entries.drop_last(), key) is Some {
        lookup(entries.drop_last(), key)
    } else if key_is(entries.last().0, key) {
        Some(entries.last().1)
    } else {
        None
    }
}

/// `k` is the string `key`.
pub open spec fn key_is(k: YamlValue, key: Seq<char>) -> bool {
    match k {
        YamlValue::Text(s) => s@ == key,
        _ => false,
    }
}

impl YamlValue {
    /// What `value.get(key)` finds: the value under the string `key` of a mapping,
    /// nothing for a key that is absent or for a value that is not a mapping.
    pub open spec fn get_spec(self, key: Seq<char>) -> Option<YamlValue> {
        match self {
            YamlValue::Mapping(entries) => lookup(entries@, key),
            _ => None,
        }
    }

    /// What `value.as_str()` gives: the text of a string value, nothing otherwise.
    pub open spec fn str_spec(self) -> Option<Seq<char>> {
        match self {
            YamlValue::Text(s) => Some(s@),
            _ => None,
        }
    }

    /// `self.get(key)`.
    pub fn get<'a>(&'a self, key: &str) -> (r: Option<&'a YamlValue>)
        ensures
            match r {
                Some(v) => self.get_spec(key@) == Some(*v),
                None => self.get_spec(key@) is None,
            },
    {
        match self {
            YamlValue::Mapping(entries) => lookup_exec(entries, key),
            _ => None,
        }
    }

    /// `self.as_str()`.
    pub fn as_str<'a>(&'a self) -> (r: Option<&'a str>)
        ensures
            match r {
                Some(s) => self.str_spec() == Some(s@),
                None => self.str_spec() is None,
            },
    {
        match self {
            YamlValue::Text(s) => Some(s.as_str()),
            _ => None,
        }
    }
}

/// A lookup finds the value of the earliest entry whose key is the string
/// `key`, and nothing when no entry has that key.
pub proof fn lemma_lookup_finds_earliest(entries: Seq<(YamlValue, YamlValue)>, key: Seq<char>)
    ensures
        forall|j: int|
            0 <= j < entries.len() && (#[trigger] entries[j]).0.str_spec() == Some(key) && (forall|
                k: int,
            | 0 <= k < j ==> entries[k].0.str_spec() != Some(key)) ==> lookup(entries, key) == Some(
                entries[j].1,
            ),
        (forall|j: int| 0 <= j < entries.len() ==> (#[trigger] entries[j]).0.str_spec() != Some(key))
            ==> lookup(entries, key) is None,
    decreases entries.len(),
{
    if entries.len() > 0 {
        let rest = entries.drop_last();
        lemma_lookup_finds_earliest(rest, key);
        assert forall|j: int|
            0 <= j < entries.len() && (#[trigger] entries[j]).0.str_spec() == Some(key) && (forall|
                k: int,
            | 0 <= k < j ==> entries[k].0.str_spec() != Some(key)) implies lookup(entries, key)
            == Some(entries[j].1) by {
            if j < entries.len() - 1 {
                assert(rest[j] == entries[j]);
                assert forall|k: int| 0 <= k < j implies rest[k].0.str_spec() != Some(key) by {
                    assert(rest[k] == entries[k]);
                }
            } else {
                assert forall|k: int| 0 <= k < rest.len() implies (#[trigger] rest[k]).0.str_spec()
                    != Some(key) by {
                    assert(rest[k] == entries[k]);
                }
            }
        }
        if forall|j: int| 0 <= j < entries.len() ==> (#[trigger] entries[j]).0.str_spec() != Some(key) {
            assert forall|k: int| 0 <= k < rest.len() implies (#[trigger] rest[k]).0.str_spec()
                != Some(key) by {
                assert(rest[k] == entries[k]);
            }
            assert(entries[entries.len() - 1].0.str_spec() != Some(key));
        }
    }
}

/// Looks `key` up among `entries`, front to back.
fn lookup_exec<'a>(entries: &'a Vec<(YamlValue, YamlValue)>, key: &str) -> (r: Option<&'a YamlValue>)
    ensures
        match r {
            Some(v) => lookup(entries@, key@) == Some(*v),
            None => lookup(entries@, key@) is None,
        },
{
    let n = entries.len();
    let mut i: usize = 0;
    while i < n
        invariant
            n == entries@.len(),
            i <= n,
            lookup(entries@.take(i as int), key@) is None,
        decreases n - i,
    {
        proof {
            assert(entries@.take(i + 1).drop_last() =~= entries@.take(i as int));
        }
        let entry = &entries[i];
        match &entry.0 {
            YamlValue::Text(k) => {
                if str_eq(k.as_str(), key) {
                    proof {
                        lemma_lookup_prefix(entries@, key@, (i + 1) as int);
                    }
                    return Some(&entry.1);
                }
            },
            _ => {},
        }
        i = i + 1;
    }
    proof {
        assert(entries@.take(n as int) =~= entries@);
    }
    None
}

/// Once a prefix of `entries` holds `key`, a lookup in `entries` finds the prefix's value.
proof fn lemma_lookup_prefix(entries: Seq<(YamlValue, YamlValue)>, key: Seq<char>, k: int)
    requires
        0 <= k <= entries.len(),
        lookup(entries.take(k), key) is Some,
    ensures
        lookup(entries, key) == lookup(entries.take(k), key),
    decreases entries.len() - k,
{
    if k < entries.len() {
        assert(entries.take(k + 1).drop_last() =~= entries.take(k));
        lemma_lookup_prefix(entries, key, k + 1);
    } else {
        assert(entries.take(k) =~= entries);
    }
}

} // verus!
