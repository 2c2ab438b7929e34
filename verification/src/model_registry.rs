//! The registry of detection models.
//!
//! Each model is described by a file of its own. A model is listed if it is
//! active, its files exist, and no other model of its scope has its name.
use crate::floats::Binary32;
use crate::json;
use crate::json::Json;
use crate::pipeline::{AiConfig, ResolvedModel};
use crate::scan;
use crate::text;
use vstd::prelude::*;

verus! {

/// Where the model files are.
pub const DEFAULT_MODELS_DIR: &'static str = "config/models";

/// The post-processing library of most model families.
pub const TAPPAS_YOLO_SO: &'static str = "/usr/lib/aarch64-linux-gnu/hailo/tappas/post_processes/libyolo_hailortpp_post.so";

/// The post-processing library that the service brings along.
pub const INTREE_YOLO26_SO: &'static str = "/opt/robocup-ai-camera/apps/hailo_postprocess/libyolo26_post.so";

/// The library and function that a model family uses unless its file says
/// otherwise.
pub open spec fn family_of(output_format: Seq<char>) -> Option<(Seq<char>, Seq<char>)> {
    if output_format == "yolov5"@ || output_format == "yolov8"@ || output_format == "yolox"@ {
        Some((TAPPAS_YOLO_SO@, "filter_letterbox"@))
    } else if output_format == "yolo26"@ {
        Some((INTREE_YOLO26_SO@, "yolo26"@))
    } else {
        None
    }
}

/// The defaults of a model family.
pub fn family_defaults(output_format: &str) -> (r: Option<(&'static str, &'static str)>)
    ensures
        match r {
            Some(d) => family_of(output_format@) == Some((d.0@, d.1@)),
            None => family_of(output_format@) is None,
        },
{
    if text::same_text(output_format, "yolov5") || text::same_text(output_format, "yolov8")
        || text::same_text(output_format, "yolox") {
        Some((TAPPAS_YOLO_SO, "filter_letterbox"))
    } else if text::same_text(output_format, "yolo26") {
        Some((INTREE_YOLO26_SO, "yolo26"))
    } else {
        None
    }
}

/// What to add to a model file's post-processing entry.
#[derive(Debug, Clone, Copy, PartialEq, Eq)]
pub struct FamilyFill {
    pub so_path: Option<&'static str>,
    pub function_name: Option<&'static str>,
}

/// An absent entry of the file is filled in from the family.
pub open spec fn fills(
    value: Option<&'static str>,
    present: bool,
    default: Option<Seq<char>>,
) -> bool {
    match value {
        Some(v) => !present && default == Some(v@),
        None => present || default is None,
    }
}

/// Fill in what a model file leaves out of its post-processing entry. A file
/// without a known family is left alone.
pub fn apply_family_defaults(output_format: Option<&str>, has_so_path: bool, has_function_name: bool)
    -> (f: FamilyFill)
    ensures
        ({
            let family = match output_format {
                Some(o) => family_of(o@),
                None => None,
            };
            &&& fills(
                f.so_path,
                has_so_path,
                match family {
                    Some(d) => Some(d.0),
                    None => None,
                },
            )
            &&& fills(
                f.function_name,
                has_function_name,
                match family {
                    Some(d) => Some(d.1),
                    None => None,
                },
            )
        }),
{
    let family: Option<(&'static str, &'static str)> = match output_format {
        Some(o) => family_defaults(o),
        None => None,
    };
    match family {
        Some(d) => FamilyFill {
            so_path: if has_so_path {
                None
            } else {
                Some(d.0)
            },
            function_name: if has_function_name {
                None
            } else {
                Some(d.1)
            },
        },
        None => FamilyFill { so_path: None, function_name: None },
    }
}

/// What a model is for.
#[derive(Debug, Clone, Copy, PartialEq, Eq, Structural, Hash)]
pub enum ModelScope {
    ObjectDetection,
}

impl ModelScope {
    pub fn as_str(&self) -> (s: &'static str)
        ensures
            s@ == "object_detection"@,
    {
        match self {
            ModelScope::ObjectDetection => "object_detection",
        }
    }
}

/// What a model wants to see.
#[derive(Debug, Clone, PartialEq, Eq)]
pub struct ModelInputSpec {
    pub width: u32,
    pub height: u32,
    pub format: String,
}

/// How a model's output is read.
#[derive(Debug, Clone, PartialEq, Eq)]
pub struct ModelPostprocess {
    pub so_path: String,
    pub function_name: String,
    pub output_format: String,
}

impl Default for ModelPostprocess {
    fn default() -> (p: ModelPostprocess)
        ensures
            p.so_path@ == Seq::<char>::empty(),
            p.function_name@ == Seq::<char>::empty(),
            p.output_format@ == Seq::<char>::empty(),
    {
        ModelPostprocess {
            so_path: String::new(),
            function_name: String::new(),
            output_format: String::new(),
        }
    }
}

/// The labels of a model's classes.
#[derive(Debug, Clone, PartialEq, Eq)]
pub enum ModelLabels {
    /// A set of labels that is known by name.
    Named(String),
    /// The label of each class index.
    IndexMap(Vec<String>),
}

impl ModelLabels {
    /// The label of each class index, unless the labels are only named.
    pub fn as_index_map(&self) -> (r: Option<&[String]>)
        ensures
            match r {
                Some(list) => *self matches ModelLabels::IndexMap(v) && list@ == v@,
                None => *self is Named,
            },
    {
        match self {
            ModelLabels::IndexMap(v) => Some(v.as_slice()),
            ModelLabels::Named(_) => None,
        }
    }
}

/// No class is listed twice.
pub open spec fn classes_differ(pairs: Seq<(String, String)>) -> bool {
    forall|i: int, j: int|
        #![trigger pairs[i], pairs[j]]
        0 <= i < j < pairs.len() ==> pairs[i].0@ != pairs[j].0@
}

/// A model as its file describes it.
#[derive(Debug, Clone, PartialEq, Eq)]
pub struct ModelDef {
    pub display_name: String,
    pub scope: ModelScope,
    pub active: bool,
    pub input: ModelInputSpec,
    /// What runs the model, `hailo` for the accelerator.
    pub runtime: String,
    pub hef_path: Option<String>,
    pub model_path: Option<String>,
    pub postprocess: ModelPostprocess,
    pub labels: Option<ModelLabels>,
    pub class_map: Option<Vec<(String, String)>>,
    pub inference_fps: Option<Binary32>,
    pub notes: Option<String>,
    pub publish_detections: bool,
}

impl ModelDef {
    /// No class is mapped twice.
    pub open spec fn wf(self) -> bool {
        self.class_map matches Some(pairs) ==> classes_differ(pairs@)
    }
}

// The file of a model.

/// What a model file leaves to its family: where its post-processing entry names a
/// known family, each of the two members that the entry lacks. An entry that is not
/// an object has no members, and names no family.
pub open spec fn tree_fill(tree: Json, f: FamilyFill) -> bool {
    match tree.member("postprocess"@) {
        Some(post) => {
            let family = match post.text_member("output_format"@) {
                Some(o) => family_of(o),
                None => None,
            };
            &&& fills(
                f.so_path,
                post.member("so_path"@) is Some,
                match family {
                    Some(d) => Some(d.0),
                    None => None,
                },
            )
            &&& fills(
                f.function_name,
                post.member("function_name"@) is Some,
                match family {
                    Some(d) => Some(d.1),
                    None => None,
                },
            )
        },
        None => f.so_path is None && f.function_name is None,
    }
}

/// Read the text of a model file, and tell what it leaves to its family. `None`
/// where it is not JSON.
pub fn read_model(content: &str) -> (r: Option<(serde_json::Value, FamilyFill)>)
    ensures
        r is Some <==> json::json_text(content@) is Some,
        r matches Some(p) ==> json::json_text(content@) == Some(json::json_of(p.0)) && tree_fill(
            json::json_of(p.0),
            p.1,
        ),
{
    let value: serde_json::Value = match json::parse_json(content) {
        Ok(v) => v,
        Err(_) => {
            return None;
        },
    };
    let fill: FamilyFill = match json::field(&value, "postprocess") {
        Some(post) => {
            let output_format: Option<&str> = match json::field(post, "output_format") {
                Some(o) => o.as_str(),
                None => None,
            };
            apply_family_defaults(
                output_format,
                json::field(post, "so_path").is_some(),
                json::field(post, "function_name").is_some(),
            )
        },
        None => FamilyFill { so_path: None, function_name: None },
    };
    Some((value, fill))
}

/// A key that a model file may have.
pub open spec fn is_model_key(key: Seq<char>) -> bool {
    ||| key == "display_name"@
    ||| key == "scope"@
    ||| key == "active"@
    ||| key == "input"@
    ||| key == "runtime"@
    ||| key == "hef_path"@
    ||| key == "model_path"@
    ||| key == "postprocess"@
    ||| key == "labels"@
    ||| key == "class_map"@
    ||| key == "inference_fps"@
    ||| key == "notes"@
    ||| key == "publish_detections"@
}

fn known_key(key: &str) -> (b: bool)
    ensures
        b == is_model_key(key@),
{
    text::same_text(key, "display_name") || text::same_text(key, "scope") || text::same_text(
        key,
        "active",
    ) || text::same_text(key, "input") || text::same_text(key, "runtime") || text::same_text(
        key,
        "hef_path",
    ) || text::same_text(key, "model_path") || text::same_text(key, "postprocess")
        || text::same_text(key, "labels") || text::same_text(key, "class_map") || text::same_text(
        key,
        "inference_fps",
    ) || text::same_text(key, "notes") || text::same_text(key, "publish_detections")
}

/// Whether a model file has no key but those that a model has. A misspelt key is
/// thus found out.
pub fn has_known_keys(value: &serde_json::Value) -> (b: bool)
    ensures
        b <==> forall|k: Seq<char>|
            (#[trigger] json::json_of(*value).member(k)) is Some ==> is_model_key(k),
{
    let entries: Vec<(&String, &serde_json::Value)> = match json::entries(value) {
        Some(es) => es,
        None => {
            return true;
        },
    };
    let mut i: usize = 0;
    while i < entries.len()
        invariant
            i <= entries@.len(),
            forall|j: int| 0 <= j < i ==> is_model_key((#[trigger] entries@[j]).0@),
            forall|j: int|
                #![trigger entries@[j]]
                0 <= j < entries@.len() ==> json::json_of(*value).member(entries@[j].0@) is Some,
        decreases entries@.len() - i,
    {
        if !known_key(entries[i].0.as_str()) {
            proof {
                let k = entries@[i as int].0@;
                assert(json::json_of(*value).member(k) is Some);
            }
            return false;
        }
        i = i + 1;
    }
    true
}

/// An entry of a model file has a form that a model has no use for.
#[derive(Debug, Clone, Copy, PartialEq, Eq, Structural)]
pub struct Malformed;

/// A list holds texts only.
pub open spec fn all_texts(items: Seq<Json>) -> bool {
    forall|i: int| 0 <= i < items.len() ==> (#[trigger] items[i]) is Text
}

/// The labels that a model file gives: none, the name of a set, or a list of texts.
pub open spec fn is_labels(tree: Json, r: Result<Option<ModelLabels>, Malformed>) -> bool {
    match tree.member("labels"@) {
        None => r matches Ok(None),
        Some(Json::Null) => r matches Ok(None),
        Some(Json::Text(s)) => r matches Ok(Some(ModelLabels::Named(n))) && n@ == s,
        Some(Json::List(items)) => if all_texts(items) {
            r matches Ok(Some(ModelLabels::IndexMap(v))) && scan::texts(v@) == Seq::new(
                items.len(),
                |i: int| items[i]->Text_0,
            )
        } else {
            r is Err
        },
        _ => r is Err,
    }
}

/// Read the labels of a model.
pub fn read_labels(value: &serde_json::Value) -> (r: Result<Option<ModelLabels>, Malformed>)
    ensures
        is_labels(json::json_of(*value), r),
{
    let entry: &serde_json::Value = match json::field(value, "labels") {
        Some(e) => e,
        None => {
            return Ok(None);
        },
    };
    if entry.is_null() {
        return Ok(None);
    }
    match entry.as_str() {
        Some(s) => {
            return Ok(Some(ModelLabels::Named(s.to_owned())));
        },
        None => {},
    }
    let items: &Vec<serde_json::Value> = match entry.as_array() {
        Some(a) => a,
        None => {
            return Err(Malformed);
        },
    };
    let ghost tree = json::json_of(*entry).list()->0;
    let mut labels: Vec<String> = Vec::new();
    let mut i: usize = 0;
    while i < items.len()
        invariant
            i <= items@.len() == tree.len(),
            json::json_of(*value).member("labels"@) == Some(Json::List(tree)),
            forall|j: int|
                0 <= j < tree.len() ==> #[trigger] tree[j] == json::json_of(items@[j]),
            labels@.len() == i,
            forall|j: int|
                0 <= j < i ==> (#[trigger] tree[j] matches Json::Text(s) && labels@[j]@ == s),
        decreases items@.len() - i,
    {
        assert(tree[i as int] == json::json_of(items@[i as int]));
        match items[i].as_str() {
            Some(s) => labels.push(s.to_owned()),
            None => {
                assert(!(tree[i as int] is Text));
                return Err(Malformed);
            },
        }
        i = i + 1;
    }
    assert(scan::texts(labels@) =~= Seq::new(tree.len(), |j: int| tree[j]->Text_0));
    Ok(Some(ModelLabels::IndexMap(labels)))
}

/// `pairs` are the members of an object, each once.
pub open spec fn are_members(pairs: Seq<(String, String)>, m: Map<Seq<char>, Json>) -> bool {
    &&& classes_differ(pairs)
    &&& forall|i: int|
        #![trigger pairs[i]]
        0 <= i < pairs.len() ==> m.contains_key(pairs[i].0@) && m[pairs[i].0@] == Json::Text(
            pairs[i].1@,
        )
    &&& forall|k: Seq<char>| #[trigger]
        m.contains_key(k) ==> exists|i: int| 0 <= i < pairs.len() && (#[trigger] pairs[i]).0@ == k
}

/// The labels that a model file gives for class numbers: none, or an object of texts.
/// The order of the pairs is not stated.
pub open spec fn is_class_map(
    tree: Json,
    r: Result<Option<Vec<(String, String)>>, Malformed>,
) -> bool {
    match tree.member("class_map"@) {
        None => r matches Ok(None),
        Some(Json::Null) => r matches Ok(None),
        Some(Json::Object(m)) => if forall|k: Seq<char>| #[trigger]
            m.contains_key(k) ==> m[k] is Text {
            r matches Ok(Some(pairs)) && are_members(pairs@, m)
        } else {
            r is Err
        },
        _ => r is Err,
    }
}

/// Read which label stands for which class number.
pub fn read_class_map(value: &serde_json::Value) -> (r: Result<
    Option<Vec<(String, String)>>,
    Malformed,
>)
    ensures
        is_class_map(json::json_of(*value), r),
{
    let entry: &serde_json::Value = match json::field(value, "class_map") {
        Some(e) => e,
        None => {
            return Ok(None);
        },
    };
    if entry.is_null() {
        return Ok(None);
    }
    let entries: Vec<(&String, &serde_json::Value)> = match json::entries(entry) {
        Some(es) => es,
        None => {
            return Err(Malformed);
        },
    };
    let ghost tree = json::json_of(*entry);
    let ghost m = tree->Object_0;
    let mut pairs: Vec<(String, String)> = Vec::new();
    let mut i: usize = 0;
    while i < entries.len()
        invariant
            i <= entries@.len(),
            tree == Json::Object(m),
            json::json_of(*value).member("class_map"@) == Some(tree),
            forall|j: int|
                #![trigger entries@[j]]
                0 <= j < entries@.len() ==> tree.member(entries@[j].0@) == Some(
                    json::json_of(*entries@[j].1),
                ),
            forall|j: int, k: int|
                0 <= j < k < entries@.len() ==> (#[trigger] entries@[j]).0@ != (
                #[trigger] entries@[k]).0@,
            pairs@.len() == i,
            forall|j: int|
                #![trigger pairs@[j]]
                0 <= j < i ==> pairs@[j].0@ == entries@[j].0@ && json::json_of(*entries@[j].1)
                    == Json::Text(pairs@[j].1@),
        decreases entries@.len() - i,
    {
        match entries[i].1.as_str() {
            Some(s) => pairs.push((entries[i].0.clone(), s.to_owned())),
            None => {
                proof {
                    let k = entries@[i as int].0@;
                    assert(tree.member(k) is Some);
                    assert(m.contains_key(k) && !(m[k] is Text));
                }
                return Err(Malformed);
            },
        }
        i = i + 1;
    }
    proof {
        assert forall|a: int, b: int|
            #![trigger pairs@[a], pairs@[b]]
            0 <= a < b < pairs@.len() implies pairs@[a].0@ != pairs@[b].0@ by {
            assert(entries@[a].0@ != entries@[b].0@);
        }
        assert forall|a: int|
            #![trigger pairs@[a]]
            0 <= a < pairs@.len() implies m.contains_key(pairs@[a].0@) && m[pairs@[a].0@]
            == Json::Text(pairs@[a].1@) by {
            assert(tree.member(entries@[a].0@) is Some);
        }
        assert forall|k: Seq<char>| #[trigger] m.contains_key(k) implies exists|a: int|
            0 <= a < pairs@.len() && (#[trigger] pairs@[a]).0@ == k by {
            assert(tree.member(k) is Some);
            let a = choose|a: int| 0 <= a < entries@.len() && (#[trigger] entries@[a]).0@ == k;
            assert(pairs@[a].0@ == k);
        }
        assert forall|k: Seq<char>| #[trigger] m.contains_key(k) implies m[k] is Text by {
            let a = choose|a: int| 0 <= a < pairs@.len() && (#[trigger] pairs@[a]).0@ == k;
            assert(m[pairs@[a].0@] == Json::Text(pairs@[a].1@));
        }
    }
    Ok(Some(pairs))
}

/// A model file that was read, and which of the files it names exist.
#[derive(Debug, Clone, PartialEq, Eq)]
pub struct Sidecar {
    pub def: ModelDef,
    pub hef_exists: bool,
    pub so_exists: bool,
    pub model_exists: bool,
}

// Which models are listed.

/// Another model of the same scope has the name.
pub open spec fn clashes(all: Seq<Sidecar>, i: int) -> bool {
    exists|j: int|
        #![trigger all[j]]
        0 <= j < all.len() && j != i && all[j].def.scope == all[i].def.scope
            && all[j].def.display_name@ == all[i].def.display_name@
}

/// What the model needs to run is there.
pub open spec fn runnable(s: Sidecar) -> bool {
    if s.def.runtime@ == "hailo"@ {
        &&& s.def.hef_path is Some
        &&& s.hef_exists
        &&& s.def.postprocess.so_path@.len() > 0
        &&& s.def.postprocess.function_name@.len() > 0
        &&& s.so_exists
    } else {
        s.def.model_path is Some && s.model_exists
    }
}

/// The model is listed for a scope, or for every scope.
pub open spec fn listed(all: Seq<Sidecar>, scope: Option<ModelScope>, i: int) -> bool {
    &&& 0 <= i < all.len()
    &&& !clashes(all, i)
    &&& all[i].def.active
    &&& (scope matches Some(s) ==> all[i].def.scope == s)
    &&& runnable(all[i])
}

/// The list is in the order of names.
pub open spec fn in_name_order(all: Seq<Sidecar>, list: Seq<usize>) -> bool {
    forall|a: int, b: int|
        #![trigger list[a], list[b]]
        0 <= a < b < list.len() ==> !scan::precedes(
            all[list[b] as int].def.display_name@,
            all[list[a] as int].def.display_name@,
        )
}

/// `list` holds each listed model once, in the order of names.
pub open spec fn is_listing(all: Seq<Sidecar>, scope: Option<ModelScope>, list: Seq<usize>) -> bool {
    &&& list.no_duplicates()
    &&& forall|i: usize| #[trigger] list.contains(i) <==> listed(all, scope, i as int)
    &&& in_name_order(all, list)
}

/// Listed models of one scope have different names.
pub proof fn law_listed_names_differ(all: Seq<Sidecar>, scope: Option<ModelScope>, i: int, j: int)
    requires
        listed(all, scope, i),
        listed(all, scope, j),
        all[i].def.scope == all[j].def.scope,
        all[i].def.display_name@ == all[j].def.display_name@,
    ensures
        i == j,
{
    if i != j {
        assert(all[j].def.display_name@ == all[i].def.display_name@);
        assert(clashes(all, i));
    }
}

fn has_clash(all: &Vec<Sidecar>, i: usize) -> (b: bool)
    requires
        i < all@.len(),
    ensures
        b == clashes(all@, i as int),
{
    let mut j: usize = 0;
    while j < all.len()
        invariant
            i < all@.len(),
            j <= all@.len(),
            forall|k: int|
                #![trigger all@[k]]
                0 <= k < j && k != i ==> !(all@[k].def.scope == all@[i as int].def.scope
                    && all@[k].def.display_name@ == all@[i as int].def.display_name@),
        decreases all@.len() - j,
    {
        if j != i && all[j].def.scope == all[i].def.scope && text::same_text(
            all[j].def.display_name.as_str(),
            all[i].def.display_name.as_str(),
        ) {
            assert(all@[j as int].def.scope == all@[i as int].def.scope);
            return true;
        }
        j = j + 1;
    }
    false
}

fn is_runnable(s: &Sidecar) -> (b: bool)
    ensures
        b == runnable(*s),
{
    if text::same_text(s.def.runtime.as_str(), "hailo") {
        s.def.hef_path.is_some() && s.hef_exists && s.def.postprocess.so_path.as_str().unicode_len()
            > 0 && s.def.postprocess.function_name.as_str().unicode_len() > 0 && s.so_exists
    } else {
        s.def.model_path.is_some() && s.model_exists
    }
}

fn is_listed(all: &Vec<Sidecar>, scope: Option<ModelScope>, i: usize) -> (b: bool)
    requires
        i < all@.len(),
    ensures
        b == listed(all@, scope, i as int),
{
    if has_clash(all, i) || !all[i].def.active || !is_runnable(&all[i]) {
        return false;
    }
    match scope {
        Some(s) => all[i].def.scope == s,
        None => true,
    }
}

/// Put a model into a list that is in the order of names, after those of the
/// same name.
fn insert_by_name(all: &Vec<Sidecar>, list: &mut Vec<usize>, i: usize)
    requires
        i < all@.len(),
        in_name_order(all@, old(list)@),
        old(list)@.no_duplicates(),
        !old(list)@.contains(i),
        forall|k: int|
            #![trigger old(list)@[k]]
            0 <= k < old(list)@.len() ==> old(list)@[k] < all@.len(),
    ensures
        in_name_order(all@, final(list)@),
        final(list)@.no_duplicates(),
        final(list)@.len() == old(list)@.len() + 1,
        forall|x: usize| #[trigger]
            final(list)@.contains(x) <==> old(list)@.contains(x) || x == i,
{
    let ghost before = list@;
    let mut at: usize = list.len();
    while at > 0 && scan::text_precedes(
        all[i].def.display_name.as_str(),
        all[list[at - 1]].def.display_name.as_str(),
    )
        invariant
            list@ == before,
            at <= list@.len(),
            i < all@.len(),
            forall|k: int|
                #![trigger list@[k]]
                0 <= k < list@.len() ==> list@[k] < all@.len(),
            forall|k: int|
                #![trigger list@[k]]
                at <= k < list@.len() ==> scan::precedes(
                    all@[i as int].def.display_name@,
                    all@[list@[k] as int].def.display_name@,
                ),
        decreases at,
    {
        at = at - 1;
    }
    let ghost here = at as int;
    list.insert(at, i);
    proof {
        let new = all@[i as int].def.display_name@;
        assert forall|a: int, b: int|
            #![trigger list@[a], list@[b]]
            0 <= a < b < list@.len() implies !scan::precedes(
            all@[list@[b] as int].def.display_name@,
            all@[list@[a] as int].def.display_name@,
        ) by {
            let oa = if a < here {
                a
            } else {
                a - 1
            };
            let ob = if b < here {
                b
            } else {
                b - 1
            };
            if a != here {
                assert(list@[a] == before[oa]);
            }
            if b != here {
                assert(list@[b] == before[ob]);
            }
            if a != here && b != here {
                assert(!scan::precedes(
                    all@[before[ob] as int].def.display_name@,
                    all@[before[oa] as int].def.display_name@,
                ));
            } else if a == here {
                let other = all@[before[ob] as int].def.display_name@;
                scan::lemma_order(new, other, new);
            } else {
                // The new one stands right after one that does not come after
                // it, and all before that do not either.
                let other = all@[before[oa] as int].def.display_name@;
                let last = all@[before[here - 1] as int].def.display_name@;
                if oa < here - 1 {
                    assert(!scan::precedes(
                        all@[before[here - 1] as int].def.display_name@,
                        all@[before[oa] as int].def.display_name@,
                    ));
                }
                scan::lemma_order(new, other, last);
                scan::lemma_order(last, other, new);
                scan::lemma_order(new, last, other);
                scan::lemma_order(other, last, new);
                scan::lemma_order(last, new, other);
            }
        }
        assert forall|x: usize| #[trigger] list@.contains(x) <==> before.contains(x) || x == i by {
            if before.contains(x) {
                let k = choose|k: int| 0 <= k < before.len() && before[k] == x;
                if k < here {
                    assert(list@[k] == x);
                } else {
                    assert(list@[k + 1] == x);
                }
            }
            if x == i {
                assert(list@[here] == x);
            }
            if list@.contains(x) && x != i {
                let k = choose|k: int| 0 <= k < list@.len() && list@[k] == x;
                if k < here {
                    assert(before[k] == x);
                } else {
                    assert(before[k - 1] == x);
                }
            }
        }
        assert forall|a: int, b: int| 0 <= a < b < list@.len() implies list@[a] != list@[b] by {
            let oa = if a < here {
                a
            } else {
                a - 1
            };
            let ob = if b < here {
                b
            } else {
                b - 1
            };
            if a != here {
                assert(list@[a] == before[oa]);
                assert(before.contains(before[oa]));
            }
            if b != here {
                assert(list@[b] == before[ob]);
                assert(before.contains(before[ob]));
            }
        }
    }
}

/// List the models of a scope, or of every scope, in the order of their names.
/// Gives their places among the files.
pub fn load_models(all: &Vec<Sidecar>, scope: Option<ModelScope>) -> (list: Vec<usize>)
    ensures
        is_listing(all@, scope, list@),
{
    let mut list: Vec<usize> = Vec::new();
    let mut i: usize = 0;
    while i < all.len()
        invariant
            i <= all@.len(),
            list@.no_duplicates(),
            in_name_order(all@, list@),
            forall|x: usize| #[trigger]
                list@.contains(x) <==> x < i && listed(all@, scope, x as int),
        decreases all@.len() - i,
    {
        if is_listed(all, scope, i) {
            assert forall|k: int| #![trigger list@[k]] 0 <= k < list@.len() implies list@[k]
                < all@.len() by {
                assert(list@.contains(list@[k]));
            }
            insert_by_name(all, &mut list, i);
        }
        i = i + 1;
    }
    list
}

/// Find the listed model of a name.
pub fn load_model_by_display_name(
    all: &Vec<Sidecar>,
    display_name: &str,
    scope: Option<ModelScope>,
) -> (r: Option<usize>)
    ensures
        match r {
            Some(i) => listed(all@, scope, i as int) && all@[i as int].def.display_name@
                == display_name@,
            None => forall|i: int|
                #![trigger all@[i]]
                listed(all@, scope, i) ==> all@[i].def.display_name@ != display_name@,
        },
{
    let list: Vec<usize> = load_models(all, scope);
    let mut k: usize = 0;
    while k < list.len()
        invariant
            k <= list@.len(),
            is_listing(all@, scope, list@),
            forall|j: int|
                #![trigger list@[j]]
                0 <= j < k ==> all@[list@[j] as int].def.display_name@ != display_name@,
        decreases list@.len() - k,
    {
        let i: usize = list[k];
        assert(list@.contains(i));
        if text::same_text(all[i].def.display_name.as_str(), display_name) {
            return Some(i);
        }
        k = k + 1;
    }
    let n: usize = all.len();
    assert forall|i: int| #![trigger all@[i]] listed(all@, scope, i) implies all@[i].def.display_name@
        != display_name@ by {
        let x = i as usize;
        assert(list@.contains(x));
        let j = choose|j: int| 0 <= j < list@.len() && list@[j] == x;
        assert(list@[j] == x);
    }
    None
}

// From a listed model to one that can run.

/// Two lists of texts hold the same texts.
pub open spec fn same_texts(a: Option<Vec<String>>, b: Option<Seq<String>>) -> bool {
    match (a, b) {
        (Some(x), Some(y)) => scan::texts(x@) == scan::texts(y),
        (None, None) => true,
        _ => false,
    }
}

/// Two maps hold the same texts, in the same order.
pub open spec fn same_pairs(
    a: Option<Vec<(String, String)>>,
    b: Option<Vec<(String, String)>>,
) -> bool {
    match (a, b) {
        (Some(x), Some(y)) => {
            &&& x@.len() == y@.len()
            &&& forall|i: int|
                #![trigger x@[i]]
                0 <= i < x@.len() ==> x@[i].0@ == y@[i].0@ && x@[i].1@ == y@[i].1@
        },
        (None, None) => true,
        _ => false,
    }
}

/// `m` is the model of `d`, ready to run.
pub open spec fn is_resolved(m: ResolvedModel, d: ModelDef) -> bool {
    &&& m.display_name@ == d.display_name@
    &&& m.hef_path@ == (match d.hef_path {
        Some(p) => p@,
        None => Seq::empty(),
    })
    &&& m.input_width == d.input.width
    &&& m.input_height == d.input.height
    &&& m.input_format@ == d.input.format@
    &&& m.postprocess_so@ == d.postprocess.so_path@
    &&& m.postprocess_fn@ == d.postprocess.function_name@
    &&& m.output_format@ == d.postprocess.output_format@
    &&& same_texts(
        m.label_map,
        match d.labels {
            Some(ModelLabels::IndexMap(v)) => Some(v@),
            _ => None,
        },
    )
    &&& crate::session::text_of(m.labels_display) == (match d.labels {
        Some(ModelLabels::Named(s)) => Some(s@),
        _ => None,
    })
    &&& same_pairs(m.class_map, d.class_map)
    &&& m.inference_fps == d.inference_fps
    &&& crate::session::text_of(m.notes) == crate::session::text_of(d.notes)
    &&& m.publish_detections == d.publish_detections
}

fn copy_texts(list: &[String]) -> (r: Vec<String>)
    ensures
        scan::texts(r@) == scan::texts(list@),
{
    let mut r: Vec<String> = Vec::new();
    let n: usize = list.len();
    let mut i: usize = 0;
    while i < n
        invariant
            i <= n == list@.len(),
            r@.len() == i,
            forall|k: int| 0 <= k < i ==> #[trigger] r@[k]@ == list@[k]@,
        decreases n - i,
    {
        r.push(list[i].clone());
        i = i + 1;
    }
    assert(scan::texts(r@) =~= scan::texts(list@));
    r
}

fn copy_pairs(list: &Vec<(String, String)>) -> (r: Vec<(String, String)>)
    ensures
        r@.len() == list@.len(),
        forall|i: int|
            #![trigger r@[i]]
            0 <= i < r@.len() ==> r@[i].0@ == list@[i].0@ && r@[i].1@ == list@[i].1@,
{
    let mut r: Vec<(String, String)> = Vec::new();
    let mut i: usize = 0;
    while i < list.len()
        invariant
            i <= list@.len(),
            r@.len() == i,
            forall|k: int|
                #![trigger r@[k]]
                0 <= k < i ==> r@[k].0@ == list@[k].0@ && r@[k].1@ == list@[k].1@,
        decreases list@.len() - i,
    {
        r.push((list[i].0.clone(), list[i].1.clone()));
        i = i + 1;
    }
    r
}

fn copy_text(s: &Option<String>) -> (r: Option<String>)
    ensures
        crate::session::text_of(r) == crate::session::text_of(*s),
{
    match s {
        Some(t) => Some(t.clone()),
        None => None,
    }
}

/// Make a listed model ready to run.
pub fn resolve_one(d: &ModelDef) -> (m: ResolvedModel)
    ensures
        is_resolved(m, *d),
        d.wf() ==> (m.class_map matches Some(pairs) ==> classes_differ(pairs@)),
{
    let label_map: Option<Vec<String>> = match &d.labels {
        Some(l) => match l.as_index_map() {
            Some(list) => Some(copy_texts(list)),
            None => None,
        },
        None => None,
    };
    let labels_display: Option<String> = match &d.labels {
        Some(ModelLabels::Named(s)) => Some(s.clone()),
        _ => None,
    };
    ResolvedModel {
        display_name: d.display_name.clone(),
        hef_path: match &d.hef_path {
            Some(p) => p.clone(),
            None => String::new(),
        },
        input_width: d.input.width,
        input_height: d.input.height,
        input_format: d.input.format.clone(),
        postprocess_so: d.postprocess.so_path.clone(),
        postprocess_fn: d.postprocess.function_name.clone(),
        output_format: d.postprocess.output_format.clone(),
        label_map,
        labels_display,
        class_map: match &d.class_map {
            Some(list) => Some(copy_pairs(list)),
            None => None,
        },
        inference_fps: d.inference_fps,
        notes: copy_text(&d.notes),
        publish_detections: d.publish_detections,
    }
}

/// Resolve the selected model. A selection that is not listed leaves detection
/// off.
pub fn resolve_ai_config(all: &Vec<Sidecar>, selected: Option<&str>) -> (c: AiConfig)
    ensures
        match c.object_detection {
            Some(m) => exists|i: int|
                #![trigger all@[i]]
                listed(all@, Some(ModelScope::ObjectDetection), i) && is_resolved(m, all@[i].def)
                    && (selected matches Some(name) && all@[i].def.display_name@ == name@),
            None => selected matches Some(name) ==> forall|i: int|
                #![trigger all@[i]]
                listed(all@, Some(ModelScope::ObjectDetection), i) ==> all@[i].def.display_name@
                    != name@,
        },
{
    match selected {
        Some(name) => {
            match load_model_by_display_name(all, name, Some(ModelScope::ObjectDetection)) {
                Some(i) => {
                    let m: ResolvedModel = resolve_one(&all[i].def);
                    assert(is_resolved(m, all@[i as int].def));
                    AiConfig { object_detection: Some(m) }
                },
                None => AiConfig { object_detection: None },
            }
        },
        None => AiConfig { object_detection: None },
    }
}

} // verus!
