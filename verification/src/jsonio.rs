//! The trusted surface over `serde_json`, and the library's own view of
//! a parsed document: a plain tree of nulls, booleans, unsigned numbers,
//! texts, lists and key/value tables.  Parsing a text yields the tree
//! named by `json_tree_of`, a function of the text alone, so every
//! contract downstream of a parse can be an equation; all navigation and
//! dispatch over the tree is verified code.

use vstd::prelude::*;
use vstd::string::StrSliceExecFns;
use vstd::string::StringExecFns;

use crate::strutil::str_eq;

verus! {

#[verifier::external_type_specification]
#[verifier::external_body]
pub struct ExValue(serde_json::Value);

/// A parsed JSON document as plain library data.  Numbers keep only the
/// shape the wire dialects read — unsigned 64-bit values; any other
/// number is carried as `OtherNumber`.
pub enum JsonNode {
    Null,
    Truth(bool),
    Uint(u64),
    OtherNumber,
    Text(String),
    List(Vec<JsonNode>),
    Table(Vec<(String, JsonNode)>),
}

/// Mathematical model of a parsed document.
#[verifier::ext_equal]
pub ghost enum JsonNodeModel {
    Null,
    Truth(bool),
    Uint(u64),
    OtherNumber,
    Text(Seq<char>),
    List(Seq<JsonNodeModel>),
    Table(Seq<(Seq<char>, JsonNodeModel)>),
}

impl JsonNode {
    /// The node as its model.
    pub open spec fn model(self) -> JsonNodeModel
        decreases self,
        via Self::model_decreases
    {
        match self {
            JsonNode::Null => JsonNodeModel::Null,
            JsonNode::Truth(b) => JsonNodeModel::Truth(b),
            JsonNode::Uint(u) => JsonNodeModel::Uint(u),
            JsonNode::OtherNumber => JsonNodeModel::OtherNumber,
            JsonNode::Text(s) => JsonNodeModel::Text(s@),
            JsonNode::List(xs) => JsonNodeModel::List(
                Seq::new(
                    xs@.len(),
                    |i: int|
                        if 0 <= i < xs@.len() {
                            xs@[i].model()
                        } else {
                            JsonNodeModel::Null
                        },
                ),
            ),
            JsonNode::Table(ps) => JsonNodeModel::Table(
                Seq::new(
                    ps@.len(),
                    |i: int|
                        if 0 <= i < ps@.len() {
                            (ps@[i].0@, ps@[i].1.model())
                        } else {
                            (Seq::empty(), JsonNodeModel::Null)
                        },
                ),
            ),
        }
    }

    /// A node's children sit below it in the structural order.
    #[via_fn]
    proof fn model_decreases(self) {
        match self {
            JsonNode::List(xs) => {
                assert forall|i: int| 0 <= i < xs@.len() implies decreases_to!(self => xs@[i]) by {
                    assert(decreases_to!(self => xs));
                    assert(decreases_to!(xs => xs@));
                    assert(decreases_to!(xs@ => xs@[i]));
                }
            },
            JsonNode::Table(ps) => {
                assert forall|i: int| 0 <= i < ps@.len() implies decreases_to!(
                    self => ps@[i].1,
                ) by {
                    assert(decreases_to!(self => ps));
                    assert(decreases_to!(ps => ps@));
                    assert(decreases_to!(ps@ => ps@[i]));
                    assert(decreases_to!(ps@[i] => ps@[i].1));
                }
            },
            _ => {},
        }
    }
}

impl View for JsonNode {
    type V = JsonNodeModel;

    open spec fn view(&self) -> JsonNodeModel {
        self.model()
    }
}

impl DeepView for JsonNode {
    type V = JsonNodeModel;

    open spec fn deep_view(&self) -> JsonNodeModel {
        self.model()
    }
}

/// Relies on `serde_json::Value`'s variants: one arm per variant, moving
/// its data into the library's tree; `Number::as_u64` keeps a number's
/// unsigned 64-bit value where it has one.
#[verifier::external_body]
fn value_to_node(v: serde_json::Value) -> JsonNode {
    match v {
        serde_json::Value::Null => JsonNode::Null,
        serde_json::Value::Bool(b) => JsonNode::Truth(b),
        serde_json::Value::Number(n) => match n.as_u64() {
            Some(u) => JsonNode::Uint(u),
            None => JsonNode::OtherNumber,
        },
        serde_json::Value::String(s) => JsonNode::Text(s),
        serde_json::Value::Array(xs) => JsonNode::List(
            xs.into_iter().map(value_to_node).collect(),
        ),
        serde_json::Value::Object(ps) => JsonNode::Table(
            ps.into_iter().map(|(k, x)| (k, value_to_node(x))).collect(),
        ),
    }
}

/// What parsing a text as one JSON document yields: a function of the
/// text alone, and nothing for invalid JSON.
pub uninterp spec fn json_tree_of(s: Seq<char>) -> Option<JsonNodeModel>;

/// Relies on `serde_json::from_str::<Value>`: parses one JSON document,
/// `None` on invalid JSON (errors, including the recursion-depth limit,
/// come back as `Err`, never a panic), converted variant for variant
/// into the library's tree.
#[verifier::external_body]
pub(crate) fn parse_json_tree(s: &str) -> (r: Option<JsonNode>)
    ensures
        match r {
            Some(t) => json_tree_of(s@) == Some(t.model()),
            None => json_tree_of(s@) is None,
        },
{
    serde_json::from_str::<serde_json::Value>(s).ok().map(value_to_node)
}

/// Accumulated tool-call arguments as a provider may see them: the raw
/// text when it is valid JSON, else the empty object — malformed
/// arguments degrade rather than fail the stream.
pub open spec fn spec_args_or_empty(raw: Seq<char>) -> Seq<char> {
    if json_tree_of(raw) is Some {
        raw
    } else {
        "{}"@
    }
}

/// Degrade malformed tool-call arguments to the empty object.
pub fn args_or_empty(raw: String) -> (r: String)
    ensures
        r@ == spec_args_or_empty(raw@),
{
    match parse_json_tree(raw.as_str()) {
        Some(_) => raw,
        None => String::from_str("{}"),
    }
}

/// The value under a key in a table node: the first pair with that key,
/// nothing for other node kinds or a missing key.
pub open spec fn spec_table_get(
    ps: Seq<(Seq<char>, JsonNodeModel)>,
    key: Seq<char>,
) -> Option<JsonNodeModel>
    decreases ps.len(),
{
    if ps.len() == 0 {
        None
    } else if ps[0].0 == key {
        Some(ps[0].1)
    } else {
        spec_table_get(ps.drop_first(), key)
    }
}

/// Look a key up in a node.
pub open spec fn spec_node_get(t: JsonNodeModel, key: Seq<char>) -> Option<JsonNodeModel> {
    match t {
        JsonNodeModel::Table(ps) => spec_table_get(ps, key),
        _ => None,
    }
}

/// The text of a text node under a key, nothing otherwise.
pub open spec fn spec_str_under(t: JsonNodeModel, key: Seq<char>) -> Option<Seq<char>> {
    match spec_node_get(t, key) {
        Some(JsonNodeModel::Text(s)) => Some(s),
        _ => None,
    }
}

/// The value of an unsigned number node under a key, nothing otherwise.
pub open spec fn spec_u64_under(t: JsonNodeModel, key: Seq<char>) -> Option<u64> {
    match spec_node_get(t, key) {
        Some(JsonNodeModel::Uint(u)) => Some(u),
        _ => None,
    }
}

/// The text under a key, or the empty text when there is none.
pub open spec fn spec_str_or_empty(t: JsonNodeModel, key: Seq<char>) -> Seq<char> {
    match spec_str_under(t, key) {
        Some(s) => s,
        None => Seq::empty(),
    }
}

/// The value of a boolean node under a key, nothing otherwise.
pub open spec fn spec_bool_under(t: JsonNodeModel, key: Seq<char>) -> Option<bool> {
    match spec_node_get(t, key) {
        Some(JsonNodeModel::Truth(b)) => Some(b),
        _ => None,
    }
}

/// How `spec_table_get` behaves: the first pair with the key, if any.
proof fn lemma_table_get(ps: Seq<(Seq<char>, JsonNodeModel)>, key: Seq<char>)
    ensures
        spec_table_get(ps, key) is None ==> (forall|j: int|
            0 <= j < ps.len() ==> (#[trigger] ps[j].0) != key),
        forall|j: int|
            0 <= j < ps.len() && (#[trigger] ps[j].0) == key ==> spec_table_get(ps, key) is Some,
        spec_table_get(ps, key) is Some ==> exists|j: int|
            0 <= j < ps.len() && (#[trigger] ps[j].0) == key,
        forall|k: int|
            0 <= k < ps.len() && (#[trigger] ps[k].0) == key && (forall|j: int|
                0 <= j < k ==> (#[trigger] ps[j].0) != key) ==> spec_table_get(ps, key) == Some(
                ps[k].1,
            ),
    decreases ps.len(),
{
    if ps.len() > 0 && ps[0].0 != key {
        lemma_table_get(ps.drop_first(), key);
        if spec_table_get(ps, key) is None {
            assert forall|j: int| 0 <= j < ps.len() implies (#[trigger] ps[j].0) != key by {
                if j > 0 {
                    assert(ps.drop_first()[j - 1].0 != key);
                }
            }
        }
        assert forall|j: int|
            0 <= j < ps.len() && (#[trigger] ps[j].0) == key implies spec_table_get(
            ps,
            key,
        ) is Some by {
            if j > 0 {
                assert(ps.drop_first()[j - 1].0 == key);
            }
        }
        if spec_table_get(ps, key) is Some {
            let j = choose|j: int|
                0 <= j < ps.drop_first().len() && (#[trigger] ps.drop_first()[j].0) == key;
            assert(ps[j + 1].0 == key);
        }
        assert forall|k: int|
            0 <= k < ps.len() && (#[trigger] ps[k].0) == key && (forall|j: int|
                0 <= j < k ==> (#[trigger] ps[j].0) != key) implies spec_table_get(ps, key)
            == Some(ps[k].1) by {
            assert(k > 0);
            assert(ps.drop_first()[k - 1].0 == key);
            assert forall|j: int| 0 <= j < k - 1 implies (#[trigger] ps.drop_first()[j].0)
                != key by {
                assert(ps[j + 1].0 != key);
            }
            assert(spec_table_get(ps.drop_first(), key) == Some(ps.drop_first()[k - 1].1));
        }
    }
}

/// Look a key up in a node.
pub fn node_get<'a>(t: &'a JsonNode, key: &str) -> (r: Option<&'a JsonNode>)
    ensures
        match r {
            Some(n) => spec_node_get(t.model(), key@) == Some(n.model()),
            None => spec_node_get(t.model(), key@) is None,
        },
{
    match t {
        JsonNode::Table(ps) => {
            let ghost pm = match t.model() {
                JsonNodeModel::Table(m) => m,
                _ => Seq::empty(),
            };
            let n = ps.len();
            let mut k: usize = 0;
            while k < n
                invariant
                    k <= n,
                    n == ps@.len(),
                    pm == (match t.model() {
                        JsonNodeModel::Table(m) => m,
                        _ => Seq::<(Seq<char>, JsonNodeModel)>::empty()
                    }),
                    t.model() matches JsonNodeModel::Table(_),
                    pm.len() == n,
                    forall|j: int| 0 <= j < n ==> (#[trigger] pm[j]) == (ps@[j].0@, ps@[j].1.model()),
                    forall|j: int| 0 <= j < k ==> (#[trigger] pm[j].0) != key@,
                decreases n - k,
            {
                if str_eq(ps[k].0.as_str(), key) {
                    proof {
                        lemma_table_get(pm, key@);
                        assert(pm[k as int].0 == key@);
                        assert(spec_table_get(pm, key@) == Some(pm[k as int].1));
                    }
                    return Some(&ps[k].1);
                }
                k = k + 1;
            }
            proof {
                lemma_table_get(pm, key@);
            }
            None
        },
        _ => None,
    }
}

/// The text a text node holds.
pub fn node_str<'a>(t: &'a JsonNode) -> (r: Option<&'a str>)
    ensures
        match r {
            Some(s) => t.model() == JsonNodeModel::Text(s@),
            None => !(t.model() is Text),
        },
{
    match t {
        JsonNode::Text(s) => Some(s.as_str()),
        _ => None,
    }
}

/// The value an unsigned number node holds.
pub fn node_u64(t: &JsonNode) -> (r: Option<u64>)
    ensures
        match r {
            Some(u) => t.model() == JsonNodeModel::Uint(u),
            None => !(t.model() is Uint),
        },
{
    match t {
        JsonNode::Uint(u) => Some(*u),
        _ => None,
    }
}

/// The value a boolean node holds.
pub fn node_bool(t: &JsonNode) -> (r: Option<bool>)
    ensures
        match r {
            Some(b) => t.model() == JsonNodeModel::Truth(b),
            None => !(t.model() is Truth),
        },
{
    match t {
        JsonNode::Truth(b) => Some(*b),
        _ => None,
    }
}

/// The elements a list node holds.
pub fn node_list<'a>(t: &'a JsonNode) -> (r: Option<&'a Vec<JsonNode>>)
    ensures
        match r {
            Some(xs) => t.model() == JsonNodeModel::List(xs.deep_view()),
            None => !(t.model() is List),
        },
{
    match t {
        JsonNode::List(xs) => {
            proof {
                assert(t.model() matches JsonNodeModel::List(m) && m =~= xs.deep_view());
            }
            Some(xs)
        },
        _ => None,
    }
}

/// The text under a key.
pub fn str_under<'a>(t: &'a JsonNode, key: &str) -> (r: Option<&'a str>)
    ensures
        r.deep_view() == spec_str_under(t.model(), key@),
{
    match node_get(t, key) {
        Some(n) => node_str(n),
        None => None,
    }
}

/// The unsigned number under a key.
pub fn u64_under(t: &JsonNode, key: &str) -> (r: Option<u64>)
    ensures
        r == spec_u64_under(t.model(), key@),
{
    match node_get(t, key) {
        Some(n) => node_u64(n),
        None => None,
    }
}

/// The boolean under a key.
pub fn bool_under(t: &JsonNode, key: &str) -> (r: Option<bool>)
    ensures
        r == spec_bool_under(t.model(), key@),
{
    match node_get(t, key) {
        Some(n) => node_bool(n),
        None => None,
    }
}

} // verus!
