//! Structured front matter, as the YAML loader hands it over.
use vstd::prelude::*;
use yaml_rust::{Yaml, YamlLoader};

verus! {

/// A YAML scalar, as far as options can hold one.
#[derive(Clone, Debug)]
pub enum YamlValue {
    Str(String),
    Int(i64),
    Bool(bool),
    /// A float, a list, a nested mapping, null, or an alias.
    Other,
}

/// A top-level YAML document.
#[derive(Clone, Debug)]
pub enum YamlNode {
    Value(YamlValue),
    Mapping(Vec<(YamlValue, YamlValue)>),
}

/// What loading a text as YAML gives.
#[derive(Clone, Debug)]
pub enum YamlLoad {
    /// The text is not valid YAML.
    Invalid,
    /// The documents of the text, in order.
    Docs(Vec<YamlNode>),
}

pub enum ScalarModel {
    Str(Seq<char>),
    Int(int),
    Bool(bool),
    Other,
}

pub enum NodeModel {
    Value(ScalarModel),
    Mapping(Seq<(ScalarModel, ScalarModel)>),
}

pub enum LoadModel {
    Invalid,
    Docs(Seq<NodeModel>),
}

impl View for YamlValue {
    type V = ScalarModel;

    open spec fn view(&self) -> ScalarModel {
        match self {
            YamlValue::Str(s) => ScalarModel::Str(s@),
            YamlValue::Int(i) => ScalarModel::Int(*i as int),
            YamlValue::Bool(b) => ScalarModel::Bool(*b),
            YamlValue::Other => ScalarModel::Other,
        }
    }
}

pub open spec fn entries_view(v: Seq<(YamlValue, YamlValue)>) -> Seq<(ScalarModel, ScalarModel)> {
    Seq::new(v.len(), |i: int| (v[i].0@, v[i].1@))
}

impl View for YamlNode {
    type V = NodeModel;

    open spec fn view(&self) -> NodeModel {
        match self {
            YamlNode::Value(v) => NodeModel::Value(v@),
            YamlNode::Mapping(es) => NodeModel::Mapping(entries_view(es@)),
        }
    }
}

impl View for YamlLoad {
    type V = LoadModel;

    open spec fn view(&self) -> LoadModel {
        match self {
            YamlLoad::Invalid => LoadModel::Invalid,
            YamlLoad::Docs(d) => LoadModel::Docs(Seq::new(d@.len(), |i: int| d@[i]@)),
        }
    }
}

/// What the YAML loader makes of a text: a function of the text alone.
pub uninterp spec fn yaml_load(s: Seq<char>) -> LoadModel;

/// The entries of `s`, where `s` is exactly one YAML document and that
/// document is a mapping.
pub open spec fn single_mapping(s: Seq<char>) -> Option<Seq<(ScalarModel, ScalarModel)>> {
    match yaml_load(s) {
        LoadModel::Docs(d) => if d.len() == 1 && d[0] is Mapping {
            Some(d[0]->Mapping_0)
        } else {
            None
        },
        LoadModel::Invalid => None,
    }
}

/// Whether the first YAML document of `s` is a mapping.
pub open spec fn starts_with_mapping(s: Seq<char>) -> bool {
    match yaml_load(s) {
        LoadModel::Docs(d) => d.len() > 0 && d[0] is Mapping,
        LoadModel::Invalid => false,
    }
}

/// Relies on `yaml_rust::YamlLoader::load_from_str`: loads `s` as YAML;
/// mappings keep the order of their entries.
#[verifier::external_body]
pub(crate) fn load_yaml(s: &str) -> (r: YamlLoad)
    ensures
        r@ == yaml_load(s@),
{
    let v = |y: &Yaml| match y {
        Yaml::String(s) => YamlValue::Str(s.clone()),
        Yaml::Integer(i) => YamlValue::Int(*i),
        Yaml::Boolean(b) => YamlValue::Bool(*b),
        _ => YamlValue::Other,
    };
    match YamlLoader::load_from_str(s) {
        Err(_) => YamlLoad::Invalid,
        Ok(docs) => YamlLoad::Docs(docs.iter().map(|d| match d.as_hash() {
            Some(h) => YamlNode::Mapping(h.iter().map(|(k, x)| (v(k), v(x))).collect()),
            None => YamlNode::Value(v(d)),
        }).collect()),
    }
}

/// The entries of `s` when it is one YAML mapping document.
pub fn load_single_mapping(s: &str) -> (r: Option<Vec<(YamlValue, YamlValue)>>)
    ensures
        match (r, single_mapping(s@)) {
            (Some(es), Some(m)) => entries_view(es@) == m,
            (None, None) => true,
            _ => false,
        },
{
    match load_yaml(s) {
        YamlLoad::Invalid => None,
        YamlLoad::Docs(mut d) => {
            if d.len() == 1 {
                match d.pop() {
                    Some(YamlNode::Mapping(es)) => Some(es),
                    _ => None,
                }
            } else {
                None
            }
        },
    }
}

/// Whether the first YAML document of `s` is a mapping.
pub fn first_is_mapping(s: &str) -> (r: bool)
    ensures
        r == starts_with_mapping(s@),
{
    match load_yaml(s) {
        YamlLoad::Invalid => false,
        YamlLoad::Docs(d) => d.len() > 0 && matches!(d[0], YamlNode::Mapping(_)),
    }
}

} // verus!
