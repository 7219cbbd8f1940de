//! The library's reading of JSON documents. `serde_json` parses the text;
//! the parsed tree is carried over into a type of the library, so that the
//! walks over it are verified against a mathematical model of the document.

use vstd::prelude::*;

verus! {

broadcast use vstd::std_specs::vec::axiom_vec_index_decreases;

#[verifier::external_type_specification]
#[verifier::external_body]
pub struct ExJsonValue(serde_json::Value);

/// A JSON document as the library reads it: objects and arrays as vectors,
/// strings as text. Numbers are never read by this library's logic, so
/// they carry no payload.
pub enum JsonNode {
    Null,
    Bool(bool),
    Num,
    Text(String),
    Arr(Vec<JsonNode>),
    Obj(Vec<(String, JsonNode)>),
}

/// The mathematical content of a JSON document.
pub ghost enum JsonModel {
    MNull,
    MBool(bool),
    MNum,
    MText(Seq<char>),
    MArr(Seq<JsonModel>),
    MObj(Seq<(Seq<char>, JsonModel)>),
}

impl JsonNode {
    /// The document's mathematical content.
    pub open spec fn model(&self) -> JsonModel
        decreases self,
    {
        match self {
            JsonNode::Null => JsonModel::MNull,
            JsonNode::Bool(b) => JsonModel::MBool(*b),
            JsonNode::Num => JsonModel::MNum,
            JsonNode::Text(s) => JsonModel::MText(s@),
            JsonNode::Arr(items) => JsonModel::MArr(
                Seq::new(
                    items@.len(),
                    |i: int|
                        if 0 <= i < items.len() {
                            items[i].model()
                        } else {
                            JsonModel::MNull
                        },
                ),
            ),
            JsonNode::Obj(members) => JsonModel::MObj(
                Seq::new(
                    members@.len(),
                    |i: int|
                        if 0 <= i < members.len() {
                            (members[i].0@, members[i].1.model())
                        } else {
                            (Seq::empty(), JsonModel::MNull)
                        },
                ),
            ),
        }
    }
}

/// The model of an object node's member vector.
pub open spec fn members_model(ms: Seq<(String, JsonNode)>) -> Seq<(Seq<char>, JsonModel)> {
    Seq::new(ms.len(), |i: int| (ms[i].0@, ms[i].1.model()))
}

/// The model of an array node's element vector.
pub open spec fn items_model(s: Seq<JsonNode>) -> Seq<JsonModel> {
    Seq::new(s.len(), |i: int| s[i].model())
}

/// An object node's model is the model of its member vector.
pub proof fn lemma_obj_model(n: &JsonNode)
    ensures
        (n matches JsonNode::Obj(members) ==> n.model() == JsonModel::MObj(
            members_model(members@),
        )),
{
    match n {
        JsonNode::Obj(members) => {
            assert(n.model()->MObj_0 =~= members_model(members@));
        },
        _ => {},
    }
}

/// An array node's model is the model of its element vector.
pub proof fn lemma_arr_model(n: &JsonNode)
    ensures
        (n matches JsonNode::Arr(items) ==> n.model() == JsonModel::MArr(items_model(items@))),
{
    match n {
        JsonNode::Arr(items) => {
            assert(n.model()->MArr_0 =~= items_model(items@));
        },
        _ => {},
    }
}

/// The member of an object under a key: the first pair that carries it.
pub open spec fn obj_lookup(
    members: Seq<(Seq<char>, JsonModel)>,
    key: Seq<char>,
) -> Option<JsonModel>
    decreases members.len(),
{
    if members.len() == 0 {
        None
    } else if members[0].0 == key {
        Some(members[0].1)
    } else {
        obj_lookup(members.drop_first(), key)
    }
}

proof fn lemma_obj_lookup_skip(ms: Seq<(Seq<char>, JsonModel)>, key: Seq<char>, k: int)
    requires
        0 <= k <= ms.len(),
        forall|j: int| 0 <= j < k ==> ms[j].0 != key,
    ensures
        obj_lookup(ms, key) == obj_lookup(ms.skip(k), key),
    decreases k,
{
    if k == 0 {
        assert(ms.skip(0) =~= ms);
    } else {
        lemma_obj_lookup_skip(ms, key, k - 1);
        assert(ms.skip(k - 1)[0] == ms[k - 1]);
        assert(ms.skip(k - 1).drop_first() =~= ms.skip(k));
    }
}

/// Finds the member of an object's member vector under a key.
pub fn member_get<'a>(members: &'a Vec<(String, JsonNode)>, key: &String) -> (r: Option<
    &'a JsonNode,
>)
    ensures
        r is Some <==> obj_lookup(members_model(members@), key@) is Some,
        (r matches Some(n) ==> obj_lookup(members_model(members@), key@) == Some(n.model())),
{
    let ghost ms = members_model(members@);
    let mut k: usize = 0;
    while k < members.len()
        invariant
            ms == members_model(members@),
            ms.len() == members@.len(),
            k <= members.len(),
            forall|j: int| 0 <= j < k ==> ms[j].0 != key@,
        decreases members.len() - k,
    {
        if members[k].0.eq(key) {
            proof {
                assert(ms[k as int].0 == key@);
                lemma_obj_lookup_skip(ms, key@, k as int);
                assert(ms.skip(k as int)[0] == ms[k as int]);
            }
            return Some(&members[k].1);
        }
        proof {
            assert(ms[k as int].0 == members@[k as int].0@);
        }
        k += 1;
    }
    proof {
        lemma_obj_lookup_skip(ms, key@, ms.len() as int);
        assert(ms.skip(ms.len() as int) =~= Seq::<(Seq<char>, JsonModel)>::empty());
    }
    None
}

/// The library's reading of a text as JSON: the parsed document, or
/// nothing when the text is not a JSON document. Both are functions of the
/// text alone.
pub uninterp spec fn json_model_of(s: Seq<char>) -> Option<JsonModel>;

/// Relies on `serde_json::from_str::<Value>`: whether a text parses, and to
/// which tree, are functions of the text alone. `node_of_value` carries the
/// parsed tree over into the library's type.
#[verifier::external_body]
pub(crate) fn parse_json_text(s: &str) -> (r: Option<JsonNode>)
    ensures
        r is Some <==> json_model_of(s@) is Some,
        (r matches Some(n) ==> Some(n.model()) == json_model_of(s@)),
{
    match serde_json::from_str::<serde_json::Value>(s) {
        Ok(v) => Some(node_of_value(&v)),
        Err(_) => None,
    }
}

/// The conversion half of `parse_json_text`: reads a `serde_json::Value`
/// into the library's type, one arm per variant, moving fields only.
/// Object members keep the order `serde_json` yields (sorted by key), so
/// the tree stays a function of the parsed text alone.
#[verifier::external_body]
fn node_of_value(v: &serde_json::Value) -> JsonNode {
    match v {
        serde_json::Value::Null => JsonNode::Null,
        serde_json::Value::Bool(b) => JsonNode::Bool(*b),
        serde_json::Value::Number(_) => JsonNode::Num,
        serde_json::Value::String(s) => JsonNode::Text(s.clone()),
        serde_json::Value::Array(a) => JsonNode::Arr(a.iter().map(node_of_value).collect()),
        serde_json::Value::Object(m) => JsonNode::Obj(
            m.iter().map(|(k, w)| (k.clone(), node_of_value(w))).collect(),
        ),
    }
}

} // verus!
