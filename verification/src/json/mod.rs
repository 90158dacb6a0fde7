//! JSON values as trees, read from and written to text.
//!
//! Reading text is `serde_json`'s work: one trusted function hands out the
//! outermost value of a text, with its children still as text, and the
//! verified code of [`parse`] builds the tree from it level by level.
//! Writing is done here, in [`render`], with `serde_json`'s escapes for
//! strings and its digits for integers.

pub mod parse;
pub mod render;

use vstd::prelude::*;

verus! {

/// Mathematical model of a JSON value.
pub enum JsonView {
    Null,
    Bool(bool),
    Int(i64),
    Number(Seq<char>),
    Str(Seq<char>),
    Array(Seq<JsonView>),
    Object(Seq<(Seq<char>, JsonView)>),
}

/// The value of the first pair of `members` whose key is `key`.
pub open spec fn lookup(members: Seq<(Seq<char>, JsonView)>, key: Seq<char>) -> Option<JsonView>
    decreases members.len(),
{
    if members.len() == 0 {
        None
    } else if members[0].0 == key {
        Some(members[0].1)
    } else {
        lookup(members.skip(1), key)
    }
}

impl JsonView {
    /// The member `key` of an object; `None` for any other value and for an
    /// object without that key.
    pub open spec fn member(self, key: Seq<char>) -> Option<JsonView> {
        match self {
            JsonView::Object(members) => lookup(members, key),
            _ => None,
        }
    }
}

/// A JSON value.
///
/// A number that fits `i64` is an `Int`; any other number is held as the
/// text that `serde_json` prints for it.
#[derive(Debug, PartialEq, Eq)]
pub enum Json {
    Null,
    Bool(bool),
    Int(i64),
    Number(String),
    Str(String),
    Array(Vec<Json>),
    Object(Vec<Member>),
}

/// One `"key": value` pair of a JSON object.
#[derive(Debug, PartialEq, Eq)]
pub struct Member {
    pub key: String,
    pub value: Json,
}

/// Views of the first `n` items of an array.
pub open spec fn item_views(items: Vec<Json>, n: nat) -> Seq<JsonView>
    decreases items, n,
{
    if n == 0 || n > items.len() {
        Seq::empty()
    } else {
        item_views(items, (n - 1) as nat).push(json_view(items[n - 1]))
    }
}

/// Views of the first `n` members of an object.
pub open spec fn member_views(members: Vec<Member>, n: nat) -> Seq<(Seq<char>, JsonView)>
    decreases members, n,
{
    if n == 0 || n > members.len() {
        Seq::empty()
    } else {
        member_views(members, (n - 1) as nat).push(
            (members[n - 1].key@, json_view(members[n - 1].value)),
        )
    }
}

/// The model of a tree: the same value with strings and vectors as
/// sequences.
pub open spec fn json_view(j: Json) -> JsonView
    decreases j,
{
    match j {
        Json::Null => JsonView::Null,
        Json::Bool(b) => JsonView::Bool(b),
        Json::Int(n) => JsonView::Int(n),
        Json::Number(t) => JsonView::Number(t@),
        Json::Str(s) => JsonView::Str(s@),
        Json::Array(items) => JsonView::Array(item_views(items, items.len() as nat)),
        Json::Object(members) => JsonView::Object(member_views(members, members.len() as nat)),
    }
}

impl View for Json {
    type V = JsonView;

    open spec fn view(&self) -> JsonView {
        json_view(*self)
    }
}

/// The views of an array's items are the items' views, index by index.
pub proof fn lemma_item_views(items: Vec<Json>, n: nat)
    requires
        n <= items.len(),
    ensures
        item_views(items, n).len() == n,
        forall|k: int| 0 <= k < n ==> #[trigger] item_views(items, n)[k] == items[k]@,
    decreases n,
{
    if n > 0 {
        lemma_item_views(items, (n - 1) as nat);
    }
}

/// The views of an object's members are the members' views, index by index.
pub proof fn lemma_member_views(members: Vec<Member>, n: nat)
    requires
        n <= members.len(),
    ensures
        member_views(members, n).len() == n,
        forall|k: int|
            0 <= k < n ==> #[trigger] member_views(members, n)[k] == (
                members[k].key@,
                members[k].value@,
            ),
    decreases n,
{
    if n > 0 {
        lemma_member_views(members, (n - 1) as nat);
    }
}

/// An array's view holds the views of its items, in order.
pub proof fn lemma_array_view(items: Vec<Json>)
    ensures
        Json::Array(items)@ == JsonView::Array(Seq::new(items.len() as nat, |k: int| items[k]@)),
{
    lemma_item_views(items, items.len() as nat);
    assert(item_views(items, items.len() as nat) =~= Seq::new(
        items.len() as nat,
        |k: int| items[k]@,
    ));
}

/// An object's view holds the keys and value views of its members, in order.
pub proof fn lemma_object_view(members: Vec<Member>)
    ensures
        Json::Object(members)@ == JsonView::Object(
            Seq::new(members.len() as nat, |k: int| (members[k].key@, members[k].value@)),
        ),
{
    lemma_member_views(members, members.len() as nat);
    assert(member_views(members, members.len() as nat) =~= Seq::new(
        members.len() as nat,
        |k: int| (members[k].key@, members[k].value@),
    ));
}

impl Json {
    /// Looks up the member `key` of an object.
    pub fn get(&self, key: &str) -> (found: Option<&Json>)
        ensures
            match found {
                Some(j) => self@.member(key@) == Some(j@),
                None => self@.member(key@) is None,
            },
    {
        match self {
            Json::Object(members) => {
                proof {
                    lemma_object_view(*members);
                }
                let ghost pairs = self@->Object_0;
                let wanted = key.to_owned();
                let mut i: usize = 0;
                assert(pairs.skip(0) =~= pairs);
                while i < members.len()
                    invariant
                        i <= members.len(),
                        wanted@ == key@,
                        self@ == JsonView::Object(pairs),
                        pairs.len() == members.len(),
                        forall|k: int|
                            0 <= k < members.len() ==> #[trigger] pairs[k] == (
                                members[k].key@,
                                members[k].value@,
                            ),
                        lookup(pairs, key@) == lookup(pairs.skip(i as int), key@),
                    decreases members.len() - i,
                {
                    let ghost rest = pairs.skip(i as int);
                    assert(rest[0] == pairs[i as int]);
                    assert(rest.skip(1) =~= pairs.skip(i + 1));
                    if members[i].key == wanted {
                        return Some(&members[i].value);
                    }
                    i += 1;
                }
                assert(pairs.skip(i as int).len() == 0);
                None
            },
            _ => None,
        }
    }
}

impl Clone for Json {
    /// A copy of the whole tree.
    fn clone(&self) -> (copy: Json)
        ensures
            copy@ == self@,
        decreases self,
    {
        match self {
            Json::Null => Json::Null,
            Json::Bool(b) => Json::Bool(*b),
            Json::Int(n) => Json::Int(*n),
            Json::Number(t) => Json::Number(t.clone()),
            Json::Str(s) => Json::Str(s.clone()),
            Json::Array(items) => {
                let mut out: Vec<Json> = Vec::new();
                let mut i: usize = 0;
                while i < items.len()
                    invariant
                        i <= items.len(),
                        out.len() == i,
                        forall|k: int| 0 <= k < i ==> #[trigger] out[k]@ == items[k]@,
                        *self == Json::Array(*items),
                    decreases items.len() - i,
                {
                    assert(self->Array_0 == *items);
                    assert(decreases_to!(*self => items[i as int]));
                    out.push(items[i].clone());
                    i += 1;
                }
                proof {
                    lemma_array_view(*items);
                    lemma_array_view(out);
                    assert(Json::Array(out)@->Array_0 =~= self@->Array_0);
                }
                Json::Array(out)
            },
            Json::Object(members) => {
                let mut out: Vec<Member> = Vec::new();
                let mut i: usize = 0;
                while i < members.len()
                    invariant
                        i <= members.len(),
                        out.len() == i,
                        forall|k: int|
                            0 <= k < i ==> (#[trigger] out[k]).key@ == members[k].key@
                                && out[k].value@ == members[k].value@,
                        *self == Json::Object(*members),
                    decreases members.len() - i,
                {
                    assert(self->Object_0 == *members);
                    assert(decreases_to!(*self => members[i as int].value));
                    out.push(Member { key: members[i].key.clone(), value: members[i].value.clone() });
                    i += 1;
                }
                proof {
                    lemma_object_view(*members);
                    lemma_object_view(out);
                    assert(Json::Object(out)@->Object_0 =~= self@->Object_0);
                }
                Json::Object(out)
            },
        }
    }
}

impl Clone for Member {
    fn clone(&self) -> (copy: Member)
        ensures
            copy.key@ == self.key@,
            copy.value@ == self.value@,
    {
        Member { key: self.key.clone(), value: self.value.clone() }
    }
}

} // verus!
