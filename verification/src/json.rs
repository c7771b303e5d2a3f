//! The document model: a tree of values that maps one for one onto JSON.
//!
//! The library builds and reads such trees; turning a tree into text, or text
//! into a tree, is left to the caller.

use vstd::prelude::*;

verus! {

/// One value of a document.
///
/// Real numbers are carried, never computed with. `Real` holds the IEEE-754
/// binary64 bit pattern of the number; `RealOfInt` holds an integer that
/// stands for the real number of the same value.
#[derive(Debug, PartialEq, Eq)]
pub enum Json {
    Null,
    Bool(bool),
    UInt(u64),
    Int(i64),
    Real(u64),
    RealOfInt(i64),
    Text(String),
    List(Vec<Json>),
    Object(Vec<(String, Json)>),
}

/// The mathematical value of a [`Json`] tree.
pub ghost enum JsonView {
    Null,
    Bool(bool),
    UInt(u64),
    Int(i64),
    Real(u64),
    RealOfInt(i64),
    Text(Seq<char>),
    List(Seq<JsonView>),
    Object(Seq<(Seq<char>, JsonView)>),
}

/// The value of a tree: each node by its kind, a text by its characters, a
/// list or an object by the values of what it holds, in order.
pub open spec fn value_of(tree: Json) -> JsonView
    decreases tree,
{
    match tree {
        Json::Null => JsonView::Null,
        Json::Bool(b) => JsonView::Bool(b),
        Json::UInt(n) => JsonView::UInt(n),
        Json::Int(n) => JsonView::Int(n),
        Json::Real(bits) => JsonView::Real(bits),
        Json::RealOfInt(n) => JsonView::RealOfInt(n),
        Json::Text(s) => JsonView::Text(s@),
        Json::List(items) => JsonView::List(
            Seq::new(
                items@.len(),
                |i: int| if 0 <= i < items@.len() { value_of(items@[i]) } else { JsonView::Null },
            ),
        ),
        Json::Object(members) => JsonView::Object(
            Seq::new(
                members@.len(),
                |i: int| if 0 <= i < members@.len() {
                    (members@[i].0@, value_of(members@[i].1))
                } else {
                    (Seq::empty(), JsonView::Null)
                },
            ),
        ),
    }
}

impl View for Json {
    type V = JsonView;

    open spec fn view(&self) -> JsonView {
        value_of(*self)
    }
}

/// The values of a sequence of trees, in order.
pub open spec fn views(items: Seq<Json>) -> Seq<JsonView> {
    Seq::new(items.len(), |i: int| items[i]@)
}

/// The keys and values of a sequence of members, in order.
pub open spec fn member_views(members: Seq<(String, Json)>) -> Seq<(Seq<char>, JsonView)> {
    Seq::new(members.len(), |i: int| (members[i].0@, members[i].1@))
}

/// The value under the first of `members` whose key is `key`.
pub open spec fn lookup(members: Seq<(Seq<char>, JsonView)>, key: Seq<char>) -> Option<JsonView>
    decreases members.len(),
{
    if members.len() == 0 {
        None
    } else if members[0].0 == key {
        Some(members[0].1)
    } else {
        lookup(members.subrange(1, members.len() as int), key)
    }
}

impl JsonView {
    /// The value that an object holds under `key`: that of the first member
    /// with this key. Anything but an object holds nothing.
    pub open spec fn field(self, key: Seq<char>) -> Option<JsonView> {
        match self {
            JsonView::Object(members) => lookup(members, key),
            _ => None,
        }
    }
}

impl Json {
    /// A list holds the values of its items, in order.
    pub proof fn lemma_list_view(items: Vec<Json>)
        ensures
            Json::List(items)@ == JsonView::List(views(items@)),
    {
        assert(Json::List(items)@->List_0 =~= views(items@));
    }

    /// An object holds the keys and values of its members, in order.
    pub proof fn lemma_object_view(members: Vec<(String, Json)>)
        ensures
            Json::Object(members)@ == JsonView::Object(member_views(members@)),
    {
        assert(Json::Object(members)@->Object_0 =~= member_views(members@));
    }

    /// A text node with the characters of `s`.
    pub fn text(s: &str) -> (node: Json)
        ensures
            node@ == JsonView::Text(s@),
    {
        Json::Text(s.to_owned())
    }

    /// A list node that holds `items`, in order.
    pub fn list(items: Vec<Json>) -> (node: Json)
        ensures
            node@ == JsonView::List(views(items@)),
    {
        proof {
            Json::lemma_list_view(items);
        }
        Json::List(items)
    }

    /// An object node that holds `members`, in order.
    pub fn object(members: Vec<(String, Json)>) -> (node: Json)
        ensures
            node@ == JsonView::Object(member_views(members@)),
    {
        proof {
            Json::lemma_object_view(members);
        }
        Json::Object(members)
    }

    /// The member that holds `value` under `key`.
    pub fn entry(key: &str, value: Json) -> (member: (String, Json))
        ensures
            member.0@ == key@,
            member.1 == value,
    {
        (key.to_owned(), value)
    }

    /// An object of two members, in the order given.
    pub fn pair(first: (String, Json), second: (String, Json)) -> (node: Json)
        ensures
            node@ == JsonView::Object(seq![(first.0@, first.1@), (second.0@, second.1@)]),
    {
        let mut members: Vec<(String, Json)> = Vec::new();
        members.push(first);
        members.push(second);
        proof {
            Json::lemma_object_view(members);
            assert(member_views(members@) =~= seq![(first.0@, first.1@), (second.0@, second.1@)]);
        }
        Json::Object(members)
    }

    /// The value that this object holds under `key`, if it is an object and
    /// has such a member: the first one, where the key occurs again.
    pub fn field(&self, key: &str) -> (found: Option<&Json>)
        ensures
            match found {
                Some(value) => self@.field(key@) == Some(value@),
                None => self@.field(key@) is None,
            },
    {
        match self {
            Json::Object(members) => {
                let wanted = key.to_owned();
                let ghost all = member_views(members@);
                proof {
                    Json::lemma_object_view(*members);
                    assert(all.subrange(0, all.len() as int) == all);
                }
                let mut i: usize = 0;
                while i < members.len()
                    invariant
                        i <= members.len(),
                        wanted@ == key@,
                        all == member_views(members@),
                        self@ == JsonView::Object(all),
                        lookup(all, key@) == lookup(all.subrange(i as int, all.len() as int), key@),
                    decreases members.len() - i,
                {
                    let ghost rest = all.subrange(i as int, all.len() as int);
                    proof {
                        assert(rest[0] == all[i as int]);
                        assert(rest.subrange(1, rest.len() as int) == all.subrange(
                            i + 1,
                            all.len() as int,
                        ));
                    }
                    if members[i].0 == wanted {
                        return Some(&members[i].1);
                    }
                    i = i + 1;
                }
                None
            },
            _ => None,
        }
    }

    /// Copies of `items`, in order.
    pub fn duplicate_all(items: &Vec<Json>) -> (copies: Vec<Json>)
        ensures
            views(copies@) == views(items@),
    {
        let mut copies: Vec<Json> = Vec::new();
        let mut i: usize = 0;
        while i < items.len()
            invariant
                i <= items.len(),
                copies.len() == i,
                forall|k: int| 0 <= k < i ==> copies@[k]@ == items@[k]@,
            decreases items.len() - i,
        {
            let copy = items[i].duplicate();
            copies.push(copy);
            i = i + 1;
        }
        assert(views(copies@) =~= views(items@));
        copies
    }

    /// A copy of the whole tree.
    pub fn duplicate(&self) -> (copy: Json)
        ensures
            copy@ == self@,
        decreases self,
    {
        match self {
            Json::Null => Json::Null,
            Json::Bool(b) => Json::Bool(*b),
            Json::UInt(n) => Json::UInt(*n),
            Json::Int(n) => Json::Int(*n),
            Json::Real(bits) => Json::Real(*bits),
            Json::RealOfInt(n) => Json::RealOfInt(*n),
            Json::Text(s) => Json::Text(s.clone()),
            Json::List(items) => {
                let mut out: Vec<Json> = Vec::new();
                let mut i: usize = 0;
                while i < items.len()
                    invariant
                        i <= items.len(),
                        out.len() == i,
                        forall|k: int| 0 <= k < i ==> out@[k]@ == items@[k]@,
                        forall|k: int| 0 <= k < items.len() ==> decreases_to!(self => items@[k]),
                    decreases items.len() - i,
                {
                    let item = items[i].duplicate();
                    out.push(item);
                    i = i + 1;
                }
                proof {
                    Json::lemma_list_view(out);
                    Json::lemma_list_view(*items);
                    assert(views(out@) =~= views(items@));
                }
                Json::List(out)
            },
            Json::Object(members) => {
                let mut out: Vec<(String, Json)> = Vec::new();
                let mut i: usize = 0;
                while i < members.len()
                    invariant
                        i <= members.len(),
                        out.len() == i,
                        forall|k: int|
                            0 <= k < i ==> out@[k].0@ == members@[k].0@ && out@[k].1@
                                == members@[k].1@,
                        forall|k: int|
                            0 <= k < members.len() ==> decreases_to!(self => members@[k].1),
                    decreases members.len() - i,
                {
                    let key = members[i].0.clone();
                    let value = members[i].1.duplicate();
                    out.push((key, value));
                    i = i + 1;
                }
                proof {
                    Json::lemma_object_view(out);
                    Json::lemma_object_view(*members);
                    assert(member_views(out@) =~= member_views(members@));
                }
                Json::Object(out)
            },
        }
    }
}

} // verus!
