//! From JSON text to a tree.

use crate::json::{lemma_array_view, lemma_object_view, Json, JsonView, Member};
use vstd::prelude::*;

verus! {

/// The outermost value of a JSON text: scalars as they are, the children of
/// an array or an object as JSON text. A number comes as its printed text
/// and, where it is an integer that fits `i64`, as that integer.
pub enum NodeView {
    Null,
    Bool(bool),
    Number { text: Seq<char>, integer: Option<i64> },
    Str(Seq<char>),
    Array(Seq<Seq<char>>),
    Object(Seq<(Seq<char>, Seq<char>)>),
}

/// Executable form of [`NodeView`].
enum Node {
    Null,
    Bool(bool),
    Number { text: String, integer: Option<i64> },
    Str(String),
    Array(Vec<String>),
    Object(Vec<(String, String)>),
}

/// The model of a node.
spec fn node_model(node: Node) -> NodeView {
    match node {
        Node::Null => NodeView::Null,
        Node::Bool(b) => NodeView::Bool(b),
        Node::Number { text, integer } => NodeView::Number { text: text@, integer },
        Node::Str(s) => NodeView::Str(s@),
        Node::Array(items) => NodeView::Array(Seq::new(items.len() as nat, |i: int| items[i]@)),
        Node::Object(members) => NodeView::Object(
            Seq::new(members.len() as nat, |i: int| (members[i].0@, members[i].1@)),
        ),
    }
}

/// What `serde_json` reads as the outermost value of `text`; `None` where it
/// rejects the text.
pub uninterp spec fn json_node(text: Seq<char>) -> Option<NodeView>;

/// View of an optional node.
spec fn node_view(node: Option<Node>) -> Option<NodeView> {
    match node {
        Some(n) => Some(node_model(n)),
        None => None,
    }
}

/// Parses `text` with `serde_json::from_str` as a `serde_json::Value` and
/// hands out its outermost level. Scalars are moved out as they are; a number
/// comes with its printed text and with what `Number::as_i64` gives for it;
/// each child of an array or object is printed back to compact JSON text
/// with `Value`'s `Display`. The result is `None` exactly where `from_str`
/// fails. The contract only names this result: it is a function of the text
/// alone.
#[verifier::external_body]
fn read_node(text: &str) -> (node: Option<Node>)
    ensures
        node_view(node) == json_node(text@),
{
    Some(match serde_json::from_str::<serde_json::Value>(text).ok()? {
        serde_json::Value::Null => Node::Null,
        serde_json::Value::Bool(b) => Node::Bool(b),
        serde_json::Value::Number(n) => Node::Number { text: n.to_string(), integer: n.as_i64() },
        serde_json::Value::String(s) => Node::Str(s),
        serde_json::Value::Array(a) => Node::Array(a.iter().map(|v| v.to_string()).collect()),
        serde_json::Value::Object(m) => Node::Object(
            m.iter().map(|(k, v)| (k.clone(), v.to_string())).collect(),
        ),
    })
}

/// Deepest nesting of arrays and objects that [`Json::parse`] follows.
/// `serde_json` itself gives up earlier, so the bound only serves to make
/// the descent end.
pub const MAX_DEPTH: usize = 128;

/// The tree that a JSON text stands for, following at most `depth` levels of
/// arrays and objects: the outermost value as `serde_json` reads it, and
/// under it the trees of its children. A child comes to this function as
/// the text that `serde_json` prints for it, not as the stretch of the text
/// it was read from, so its tree is the tree of that reprint. `None` where
/// any level is rejected or the nesting is deeper than `depth`.
pub open spec fn tree_of(text: Seq<char>, depth: nat) -> Option<JsonView>
    decreases depth,
{
    match json_node(text) {
        None => None,
        Some(NodeView::Null) => Some(JsonView::Null),
        Some(NodeView::Bool(b)) => Some(JsonView::Bool(b)),
        Some(NodeView::Number { text, integer }) => match integer {
            Some(n) => Some(JsonView::Int(n)),
            None => Some(JsonView::Number(text)),
        },
        Some(NodeView::Str(s)) => Some(JsonView::Str(s)),
        Some(NodeView::Array(items)) => {
            if depth > 0 && (forall|i: int|
                0 <= i < items.len() ==> tree_of(#[trigger] items[i], (depth - 1) as nat) is Some) {
                Some(
                    JsonView::Array(
                        Seq::new(
                            items.len(),
                            |i: int|
                                if depth > 0 {
                                    tree_of(items[i], (depth - 1) as nat).unwrap()
                                } else {
                                    JsonView::Null
                                },
                        ),
                    ),
                )
            } else {
                None
            }
        },
        Some(NodeView::Object(members)) => {
            if depth > 0 && (forall|i: int|
                0 <= i < members.len() ==> tree_of((#[trigger] members[i]).1, (depth - 1) as nat)
                    is Some) {
                Some(
                    JsonView::Object(
                        Seq::new(
                            members.len(),
                            |i: int|
                                if depth > 0 {
                                    (members[i].0, tree_of(members[i].1, (depth - 1) as nat).unwrap())
                                } else {
                                    (members[i].0, JsonView::Null)
                                },
                        ),
                    ),
                )
            } else {
                None
            }
        },
    }
}

/// View of an optional tree.
pub open spec fn tree_view(tree: Option<Json>) -> Option<JsonView> {
    match tree {
        Some(j) => Some(j@),
        None => None,
    }
}

impl Json {
    /// Reads a JSON text into a tree.
    pub fn parse(text: &str) -> (tree: Option<Json>)
        ensures
            tree_view(tree) == tree_of(text@, MAX_DEPTH as nat),
    {
        Json::parse_within(text, MAX_DEPTH)
    }

    /// Reads a JSON text into a tree, following at most `depth` levels of
    /// arrays and objects.
    pub fn parse_within(text: &str, depth: usize) -> (tree: Option<Json>)
        ensures
            tree_view(tree) == tree_of(text@, depth as nat),
        decreases depth,
    {
        match read_node(text) {
            None => None,
            Some(Node::Null) => Some(Json::Null),
            Some(Node::Bool(b)) => Some(Json::Bool(b)),
            Some(Node::Number { text, integer }) => match integer {
                Some(n) => Some(Json::Int(n)),
                None => Some(Json::Number(text)),
            },
            Some(Node::Str(s)) => Some(Json::Str(s)),
            Some(Node::Array(items)) => {
                if depth == 0 {
                    return None;
                }
                let ghost texts = Seq::new(items.len() as nat, |j: int| items[j]@);
                assert(json_node(text@) == Some(NodeView::Array(texts)));
                let mut out: Vec<Json> = Vec::new();
                let mut i: usize = 0;
                while i < items.len()
                    invariant
                        depth > 0,
                        i <= items.len(),
                        out.len() == i,
                        texts.len() == items.len(),
                        json_node(text@) == Some(NodeView::Array(texts)),
                        forall|j: int| 0 <= j < items.len() ==> texts[j] == items[j]@,
                        forall|j: int|
                            0 <= j < i ==> tree_of(#[trigger] texts[j], (depth - 1) as nat) == Some(
                                out[j]@,
                            ),
                    decreases items.len() - i,
                {
                    match Json::parse_within(items[i].as_str(), depth - 1) {
                        None => {
                            assert(tree_of(texts[i as int], (depth - 1) as nat) is None);
                            return None;
                        },
                        Some(child) => {
                            out.push(child);
                        },
                    }
                    i += 1;
                }
                let tree = Json::Array(out);
                proof {
                    let below = (depth - 1) as nat;
                    let expected = Seq::new(texts.len(), |j: int| tree_of(texts[j], below).unwrap());
                    assert(forall|j: int|
                        0 <= j < texts.len() ==> tree_of(#[trigger] texts[j], below) is Some);
                    assert(tree_of(text@, depth as nat) matches Some(JsonView::Array(trees))
                        && trees =~= expected);
                    lemma_array_view(out);
                    assert forall|j: int| 0 <= j < expected.len() implies tree@->Array_0[j]
                        == expected[j] by {
                        assert(tree_of(texts[j], below) == Some(out[j]@));
                    }
                    assert(tree@->Array_0 =~= expected);
                }
                Some(tree)
            },
            Some(Node::Object(members)) => {
                if depth == 0 {
                    return None;
                }
                let ghost pairs = Seq::new(
                    members.len() as nat,
                    |j: int| (members[j].0@, members[j].1@),
                );
                assert(json_node(text@) == Some(NodeView::Object(pairs)));
                let mut out: Vec<Member> = Vec::new();
                let mut i: usize = 0;
                while i < members.len()
                    invariant
                        depth > 0,
                        i <= members.len(),
                        out.len() == i,
                        pairs.len() == members.len(),
                        json_node(text@) == Some(NodeView::Object(pairs)),
                        forall|j: int|
                            0 <= j < members.len() ==> pairs[j] == (members[j].0@, members[j].1@),
                        forall|j: int|
                            0 <= j < i ==> out[j].key@ == (#[trigger] pairs[j]).0 && tree_of(
                                pairs[j].1,
                                (depth - 1) as nat,
                            ) == Some(out[j].value@),
                    decreases members.len() - i,
                {
                    match Json::parse_within(members[i].1.as_str(), depth - 1) {
                        None => {
                            assert(tree_of(pairs[i as int].1, (depth - 1) as nat) is None);
                            return None;
                        },
                        Some(child) => {
                            out.push(Member { key: members[i].0.clone(), value: child });
                        },
                    }
                    i += 1;
                }
                let tree = Json::Object(out);
                proof {
                    let below = (depth - 1) as nat;
                    let expected = Seq::new(
                        pairs.len(),
                        |j: int| (pairs[j].0, tree_of(pairs[j].1, below).unwrap()),
                    );
                    assert(forall|j: int|
                        0 <= j < pairs.len() ==> tree_of((#[trigger] pairs[j]).1, below) is Some);
                    assert(tree_of(text@, depth as nat) matches Some(JsonView::Object(trees))
                        && trees =~= expected);
                    lemma_object_view(out);
                    assert forall|j: int| 0 <= j < expected.len() implies tree@->Object_0[j]
                        == expected[j] by {
                        assert(tree_of(pairs[j].1, below) == Some(out[j].value@));
                    }
                    assert(tree@->Object_0 =~= expected);
                }
                Some(tree)
            },
        }
    }
}

} // verus!
