//! Build environment metadata attached to a report at submission time.

use crate::utils::json::{json_string, json_string_text, optional_json, optional_json_text};
use crate::utils::text::copy_optional_text;
use vstd::prelude::*;
use vstd::string::*;

verus! {

/// A stored build configuration. It belongs to exactly one report, named by
/// `error_report_id`, and is never changed after it was stored.
#[derive(Debug, PartialEq, Eq)]
pub struct Model {
    pub id: i32,
    pub error_report_id: i32,
    pub bb_version: String,
    pub tune_features: Option<String>,
    pub target_fpu: Option<String>,
    /// The layers, serialized as one JSON text.
    pub meta_layers: String,
}

impl Clone for Model {
    fn clone(&self) -> (copy: Self)
        ensures
            copy == *self,
    {
        Model {
            id: self.id,
            error_report_id: self.error_report_id,
            bb_version: self.bb_version.clone(),
            tune_features: copy_optional_text(&self.tune_features),
            target_fpu: copy_optional_text(&self.target_fpu),
            meta_layers: self.meta_layers.clone(),
        }
    }
}

/// One layer of the build's metadata.
#[derive(Debug, PartialEq, Eq)]
pub struct LayerInfo {
    pub name: String,
    pub path: String,
    pub commit: Option<String>,
    pub branch: Option<String>,
}

/// The build configuration as a submission carries it.
#[derive(Debug, PartialEq, Eq)]
pub struct BuildConfigData {
    pub bb_version: String,
    pub tune_features: Option<String>,
    pub target_fpu: Option<String>,
    pub meta_layers: Option<Vec<LayerInfo>>,
}

/// Whether every text of `layer` can be written as JSON.
pub open spec fn layer_encodable(layer: LayerInfo) -> bool {
    &&& json_string_text(layer.name@) is Some
    &&& json_string_text(layer.path@) is Some
    &&& optional_json_text(layer.commit) is Some
    &&& optional_json_text(layer.branch) is Some
}

/// The JSON object for a layer: its four fields in the order `name`, `path`,
/// `commit`, `branch`, without any space.
pub open spec fn layer_json_text(layer: LayerInfo) -> Seq<char> {
    "{\"name\":"@ + json_string_text(layer.name@).unwrap() + ",\"path\":"@ + json_string_text(
        layer.path@,
    ).unwrap() + ",\"commit\":"@ + optional_json_text(layer.commit).unwrap() + ",\"branch\":"@
        + optional_json_text(layer.branch).unwrap() + "}"@
}

/// The JSON objects of the layers, separated by commas.
pub open spec fn joined_layers_text(layers: Seq<LayerInfo>) -> Seq<char>
    decreases layers.len(),
{
    if layers.len() == 0 {
        Seq::empty()
    } else if layers.len() == 1 {
        layer_json_text(layers[0])
    } else {
        joined_layers_text(layers.drop_last()) + ","@ + layer_json_text(layers.last())
    }
}

/// The text under which the layers of a submission are stored: `null` where the
/// submission names none, else the JSON array of the layers, and `[]` where a layer
/// cannot be written as JSON.
pub open spec fn meta_layers_text(layers: Option<Vec<LayerInfo>>) -> Seq<char> {
    match layers {
        None => "null"@,
        Some(list) => if forall|i: int|
            0 <= i < list.len() ==> layer_encodable(#[trigger] list[i]) {
            "["@ + joined_layers_text(list@) + "]"@
        } else {
            "[]"@
        },
    }
}

impl LayerInfo {
    /// Writes the layer as a JSON object, if each of its texts can be written.
    pub fn to_json(&self) -> (encoded: Option<String>)
        ensures
            encoded is Some <==> layer_encodable(*self),
            encoded matches Some(text) ==> text@ == layer_json_text(*self),
    {
        let name = match json_string(self.name.as_str()) {
            Some(text) => text,
            None => {
                return None;
            },
        };
        let path = match json_string(self.path.as_str()) {
            Some(text) => text,
            None => {
                return None;
            },
        };
        let commit = match optional_json(&self.commit) {
            Some(text) => text,
            None => {
                return None;
            },
        };
        let branch = match optional_json(&self.branch) {
            Some(text) => text,
            None => {
                return None;
            },
        };
        let mut text = String::from_str("{\"name\":");
        text.append(name.as_str());
        text.append(",\"path\":");
        text.append(path.as_str());
        text.append(",\"commit\":");
        text.append(commit.as_str());
        text.append(",\"branch\":");
        text.append(branch.as_str());
        text.append("}");
        Some(text)
    }
}

impl BuildConfigData {
    /// The text under which the layers are stored.
    pub fn meta_layers_json(&self) -> (text: String)
        ensures
            text@ == meta_layers_text(self.meta_layers),
    {
        let layers = match &self.meta_layers {
            Some(layers) => layers,
            None => {
                return String::from_str("null");
            },
        };
        let mut text = String::from_str("[");
        let mut at: usize = 0;
        while at < layers.len()
            invariant
                at <= layers.len(),
                self.meta_layers == Some(*layers),
                forall|i: int| 0 <= i < at ==> layer_encodable(#[trigger] layers[i]),
                text@ == "["@ + joined_layers_text(layers@.take(at as int)),
            decreases layers.len() - at,
        {
            let layer = match layers[at].to_json() {
                Some(layer) => layer,
                None => {
                    assert(!layer_encodable(layers[at as int]));
                    return String::from_str("[]");
                },
            };
            if at > 0 {
                text.append(",");
            }
            text.append(layer.as_str());
            proof {
                let seen = layers@.take(at + 1);
                assert(seen.drop_last() =~= layers@.take(at as int));
                assert(seen.last() == layers[at as int]);
                assert(text@ =~= "["@ + joined_layers_text(seen));
            }
            at += 1;
        }
        proof {
            assert(layers@.take(layers.len() as int) =~= layers@);
        }
        text.append("]");
        text
    }
}

impl Model {
    /// The same build configuration under the identifier `id`.
    pub open spec fn with_identifier(self, id: i32) -> Model {
        Model { id, ..self }
    }

    /// The record under which the build configuration `data` of the report
    /// `error_report_id` is stored with the identifier `id`.
    pub open spec fn stored(
        id: i32,
        error_report_id: i32,
        data: BuildConfigData,
        record: Model,
    ) -> bool {
        &&& record.id == id
        &&& record.error_report_id == error_report_id
        &&& record.bb_version == data.bb_version
        &&& record.tune_features == data.tune_features
        &&& record.target_fpu == data.target_fpu
        &&& record.meta_layers@ == meta_layers_text(data.meta_layers)
    }

    /// Makes the record under which `data` is stored.
    pub fn from_data(id: i32, error_report_id: i32, data: &BuildConfigData) -> (record: Model)
        ensures
            Model::stored(id, error_report_id, *data, record),
    {
        Model {
            id,
            error_report_id,
            bb_version: data.bb_version.clone(),
            tune_features: copy_optional_text(&data.tune_features),
            target_fpu: copy_optional_text(&data.target_fpu),
            meta_layers: data.meta_layers_json(),
        }
    }
}

} // verus!
