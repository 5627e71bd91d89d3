//! JSON values: the tree that requests are built from and replies are read as.

use crate::text;
use vstd::prelude::*;

verus! {

/// A JSON value. A whole number is held exactly, any other number by its decimal
/// text.
#[derive(Debug, PartialEq)]
pub enum Json {
    Null,
    Bool(bool),
    Int(i128),
    Real(String),
    Str(String),
    Arr(Vec<Json>),
    Obj(Vec<(String, Json)>),
}

/// The mathematical value of a `Json`. The members of an object stand in the
/// order in which they were put.
pub enum Tree {
    Null,
    Bool(bool),
    Int(int),
    Real(Seq<char>),
    Str(Seq<char>),
    Arr(Seq<Tree>),
    Obj(Seq<(Seq<char>, Tree)>),
}

/// The mathematical value of a `Json`.
pub open spec fn tree(j: Json) -> Tree
    decreases j,
{
    match j {
        Json::Null => Tree::Null,
        Json::Bool(b) => Tree::Bool(b),
        Json::Int(n) => Tree::Int(n as int),
        Json::Real(s) => Tree::Real(s@),
        Json::Str(s) => Tree::Str(s@),
        Json::Arr(v) => Tree::Arr(
            Seq::new(
                v@.len(),
                |i: int|
                    if 0 <= i < v@.len() {
                        tree(v@[i])
                    } else {
                        Tree::Null
                    },
            ),
        ),
        Json::Obj(v) => Tree::Obj(
            Seq::new(
                v@.len(),
                |i: int|
                    if 0 <= i < v@.len() {
                        (v@[i].0@, tree(v@[i].1))
                    } else {
                        (Seq::empty(), Tree::Null)
                    },
            ),
        ),
    }
}

impl View for Json {
    type V = Tree;

    open spec fn view(&self) -> Tree {
        tree(*self)
    }
}

/// The trees of a sequence of values.
pub open spec fn trees(v: Seq<Json>) -> Seq<Tree> {
    v.map_values(|j: Json| tree(j))
}

/// The members of an object.
pub open spec fn members(v: Seq<(String, Json)>) -> Seq<(Seq<char>, Tree)> {
    v.map_values(|m: (String, Json)| (m.0@, tree(m.1)))
}

/// The position of the first member with a given key.
pub open spec fn key_index(m: Seq<(Seq<char>, Tree)>, key: Seq<char>) -> Option<int>
    decreases m.len(),
{
    if m.len() == 0 {
        None
    } else {
        match key_index(m.drop_last(), key) {
            Some(i) => Some(i),
            None => if m.last().0 == key {
                Some(m.len() - 1)
            } else {
                None
            },
        }
    }
}

impl Tree {
    /// The value under a key, where the tree is an object that has the key.
    pub open spec fn get(self, key: Seq<char>) -> Option<Tree> {
        match self {
            Tree::Obj(m) => match key_index(m, key) {
                Some(i) => Some(m[i].1),
                None => None,
            },
            _ => None,
        }
    }

    /// The object with a member put: in the place of the member with that key
    /// where there is one, at the end else. Anything but an object stays.
    pub open spec fn put(self, key: Seq<char>, v: Tree) -> Tree {
        match self {
            Tree::Obj(m) => match key_index(m, key) {
                Some(i) => Tree::Obj(m.update(i, (key, v))),
                None => Tree::Obj(m.push((key, v))),
            },
            t => t,
        }
    }

    /// The text of a string.
    pub open spec fn text(self) -> Option<Seq<char>> {
        match self {
            Tree::Str(s) => Some(s),
            _ => None,
        }
    }

    /// The items of an array.
    pub open spec fn items(self) -> Option<Seq<Tree>> {
        match self {
            Tree::Arr(v) => Some(v),
            _ => None,
        }
    }
}

/// The object with no members.
pub open spec fn empty_obj() -> Tree {
    Tree::Obj(Seq::empty())
}

/// The text of the object with no members.
pub open spec fn empty_text() -> Seq<char> {
    "{}"@
}

// ---------------------------------------------------------------------------
// JSON text
// ---------------------------------------------------------------------------

/// A value of the `serde_json` crate.
#[verifier::external_type_specification]
#[verifier::external_body]
pub struct ExValue(serde_json::Value);

/// What `serde_json::from_str` reads from a text: the tree of the value, with
/// the members of each object in the order in which `serde_json` hands them
/// out, or nothing where the text is not JSON.
pub uninterp spec fn parsed(s: Seq<char>) -> Option<Tree>;

/// What `serde_json::to_string` writes for a tree.
pub uninterp spec fn printed(t: Tree) -> Seq<char>;

/// Converts a `serde_json::Value` into a `Json`, variant by variant. A number
/// that `serde_json` holds as a whole number becomes `Int`, any other one its
/// text.
#[verifier::external_body]
fn from_value(v: serde_json::Value) -> (r: Json) {
    match v {
        serde_json::Value::Null => Json::Null,
        serde_json::Value::Bool(b) => Json::Bool(b),
        serde_json::Value::Number(n) => match n.as_i128() {
            Some(i) => Json::Int(i),
            None => Json::Real(n.to_string()),
        },
        serde_json::Value::String(s) => Json::Str(s),
        serde_json::Value::Array(a) => Json::Arr(a.into_iter().map(from_value).collect()),
        serde_json::Value::Object(m) =>
            Json::Obj(m.into_iter().map(|(k, x)| (k, from_value(x))).collect()),
    }
}

/// Calls `serde_json::from_str` for a `serde_json::Value`. The outcome is a
/// function of the text alone. An empty object is read from `{}`.
#[verifier::external_body]
pub(crate) fn parse(s: &str) -> (r: Option<Json>)
    ensures
        r matches Some(j) ==> parsed(s@) == Some(j@),
        r is None ==> parsed(s@) is None,
        r is Some || s@ != empty_text(),
        s@ == empty_text() ==> (r->0)@ == empty_obj(),
{
    serde_json::from_str(s).ok().map(from_value)
}

/// What `serde_json::from_slice` reads from bytes, as `parsed` has it of a text.
pub uninterp spec fn parsed_bytes(bytes: Seq<u8>) -> Option<Tree>;

/// Calls `serde_json::from_slice` for a `serde_json::Value`. The outcome is a function
/// of the bytes alone.
#[verifier::external_body]
pub(crate) fn parse_bytes(bytes: &[u8]) -> (r: Option<Json>)
    ensures
        r matches Some(j) ==> parsed_bytes(bytes@) == Some(j@),
        r is None ==> parsed_bytes(bytes@) is None,
{
    serde_json::from_slice(bytes).ok().map(from_value)
}

/// Converts a `Json` into a `serde_json::Value`, variant by variant.
#[verifier::external_body]
fn to_value(j: &Json) -> (r: serde_json::Value) {
    match j {
        Json::Null => serde_json::Value::Null,
        Json::Bool(b) => serde_json::Value::Bool(*b),
        Json::Int(n) => serde_json::from_str(&n.to_string()).unwrap_or_default(),
        Json::Real(s) => serde_json::from_str(s).unwrap_or_default(),
        Json::Str(s) => serde_json::Value::String(s.clone()),
        Json::Arr(v) => serde_json::Value::Array(v.iter().map(to_value).collect()),
        Json::Obj(m) =>
            serde_json::Value::Object(m.iter().map(|(k, x)| (k.clone(), to_value(x))).collect()),
    }
}

/// Calls `serde_json::Value`'s `to_string`, which writes compact JSON. The text
/// is a function of the value alone. An empty object is written as `{}`.
#[verifier::external_body]
pub(crate) fn print(j: &Json) -> (r: String)
    ensures
        r@ == printed(j@),
        r@ == empty_text() || j@ != empty_obj(),
{
    to_value(j).to_string()
}

/// The JSON that a text holds.
pub fn from_text(s: &str) -> (r: Option<Json>)
    ensures
        r matches Some(j) ==> parsed(s@) == Some(j@),
        r is None ==> parsed(s@) is None,
{
    parse(s)
}

/// The text of a value, without white space between its parts.
pub fn to_text(j: &Json) -> (r: String)
    ensures
        r@ == printed(j@),
{
    print(j)
}

// ---------------------------------------------------------------------------
// Members and items
// ---------------------------------------------------------------------------

/// `key_index` gives the first member with the key, and `None` exactly when no
/// member has it.
pub proof fn lemma_key_index(m: Seq<(Seq<char>, Tree)>, key: Seq<char>)
    ensures
        key_index(m, key) matches Some(i) ==> 0 <= i < m.len() && m[i].0 == key && forall|j: int|
            0 <= j < i ==> (#[trigger] m[j]).0 != key,
        key_index(m, key) is None ==> forall|j: int| 0 <= j < m.len() ==> (#[trigger] m[j]).0 != key,
    decreases m.len(),
{
    if m.len() > 0 {
        lemma_key_index(m.drop_last(), key);
        let p = m.drop_last();
        assert(forall|j: int| 0 <= j < p.len() ==> p[j] == m[j]);
    }
}

/// The first member with the key is the one that `key_index` gives.
proof fn lemma_key_index_is(m: Seq<(Seq<char>, Tree)>, key: Seq<char>, i: int)
    requires
        0 <= i < m.len(),
        m[i].0 == key,
        forall|j: int| 0 <= j < i ==> (#[trigger] m[j]).0 != key,
    ensures
        key_index(m, key) == Some(i),
{
    lemma_key_index(m, key);
    match key_index(m, key) {
        Some(k) => {
            if k < i {
                assert(m[k].0 != key);
            } else if k > i {
                assert(m[i].0 != key);
            }
        },
        None => {
            assert(m[i].0 != key);
        },
    }
}

impl Json {
    /// The object with no members.
    pub fn object() -> (r: Json)
        ensures
            r@ == empty_obj(),
            r is Obj,
    {
        let r = Json::Obj(Vec::new());
        assert(r@->Obj_0 =~= Seq::empty());
        r
    }

    /// A string value.
    pub fn str(s: &str) -> (r: Json)
        ensures
            r@ == Tree::Str(s@),
    {
        Json::Str(s.to_owned())
    }

    /// An array value.
    pub fn array(v: Vec<Json>) -> (r: Json)
        ensures
            r@ == Tree::Arr(trees(v@)),
    {
        let r = Json::Arr(v);
        assert(r@->Arr_0 =~= trees(v@));
        r
    }

    /// Puts a member: in the place of the member with that key where there is
    /// one, at the end else. Anything but an object stays as it is.
    pub fn put(&mut self, key: &str, v: Json)
        ensures
            final(self)@ == old(self)@.put(key@, v@),
    {
        let ghost t0 = self@;
        let ghost v0 = v;
        match self {
            Json::Obj(m) => {
                proof {
                    lemma_key_index(members(m@), key@);
                }
                assert(t0->Obj_0 =~= members(m@));
                let at = find_key(m, key);
                match at {
                    Some(i) => {
                        m[i] = (key.to_owned(), v);
                    },
                    None => {
                        m.push((key.to_owned(), v));
                    },
                }
            },
            _ => {},
        }
        proof {
            if t0 is Obj {
                assert(self@->Obj_0 =~= t0.put(key@, v0@)->Obj_0);
            }
        }
    }

    /// The value under a key, where this is an object that has the key.
    pub fn get(&self, key: &str) -> (r: Option<&Json>)
        ensures
            r matches Some(v) ==> self@.get(key@) == Some(v@),
            r is None ==> self@.get(key@) is None,
    {
        match self {
            Json::Obj(m) => {
                proof {
                    lemma_key_index(members(m@), key@);
                    assert(self@->Obj_0 =~= members(m@));
                }
                match find_key(m, key) {
                    Some(i) => Some(&m[i].1),
                    None => None,
                }
            },
            _ => None,
        }
    }

    /// The text of a string value.
    pub fn as_str(&self) -> (r: Option<&String>)
        ensures
            r matches Some(s) ==> self@.text() == Some(s@),
            r is None ==> self@.text() is None,
    {
        match self {
            Json::Str(s) => Some(s),
            _ => None,
        }
    }

    /// The items of an array value.
    pub fn as_array(&self) -> (r: Option<&Vec<Json>>)
        ensures
            r matches Some(v) ==> self@.items() == Some(trees(v@)),
            r is None ==> self@.items() is None,
    {
        match self {
            Json::Arr(v) => {
                assert(self@->Arr_0 =~= trees(v@));
                Some(v)
            },
            _ => None,
        }
    }

    /// The members of an object value.
    pub fn as_object(&self) -> (r: Option<&Vec<(String, Json)>>)
        ensures
            r matches Some(m) ==> self@ == Tree::Obj(members(m@)),
            r is None ==> !(self@ is Obj),
    {
        match self {
            Json::Obj(m) => {
                assert(self@->Obj_0 =~= members(m@));
                Some(m)
            },
            _ => None,
        }
    }

    /// A value with the same tree.
    pub fn copy(&self) -> (r: Json)
        ensures
            r@ == self@,
        decreases self,
    {
        match self {
            Json::Null => Json::Null,
            Json::Bool(b) => Json::Bool(*b),
            Json::Int(n) => Json::Int(*n),
            Json::Real(s) => Json::Real(s.clone()),
            Json::Str(s) => Json::Str(s.clone()),
            Json::Arr(v) => {
                let mut out: Vec<Json> = Vec::new();
                let mut i: usize = 0;
                while i < v.len()
                    invariant
                        i <= v@.len(),
                        *self matches Json::Arr(w) && w == *v,
                        trees(out@) =~= trees(v@).take(i as int),
                    decreases v@.len() - i,
                {
                    let ghost before = out@;
                    let c = v[i].copy();
                    out.push(c);
                    assert(trees(out@) =~= trees(before).push(tree(c)));
                    i = i + 1;
                }
                assert(trees(v@).take(i as int) =~= trees(v@));
                let r = Json::Arr(out);
                assert(r@->Arr_0 =~= trees(out@));
                assert(self@->Arr_0 =~= trees(v@));
                r
            },
            Json::Obj(m) => {
                let mut out: Vec<(String, Json)> = Vec::new();
                let mut i: usize = 0;
                while i < m.len()
                    invariant
                        i <= m@.len(),
                        *self matches Json::Obj(w) && w == *m,
                        members(out@) =~= members(m@).take(i as int),
                    decreases m@.len() - i,
                {
                    let ghost before = out@;
                    let c = m[i].1.copy();
                    let pair = (m[i].0.clone(), c);
                    out.push(pair);
                    assert(members(out@) =~= members(before).push((pair.0@, tree(pair.1))));
                    i = i + 1;
                }
                assert(members(m@).take(i as int) =~= members(m@));
                let r = Json::Obj(out);
                assert(r@->Obj_0 =~= members(out@));
                assert(self@->Obj_0 =~= members(m@));
                r
            },
        }
    }
}

/// The position of the first member with a given key.
fn find_key(m: &Vec<(String, Json)>, key: &str) -> (r: Option<usize>)
    ensures
        r matches Some(i) ==> key_index(members(m@), key@) == Some(i as int) && i < m@.len(),
        r is None ==> key_index(members(m@), key@) is None,
{
    let mut i: usize = 0;
    while i < m.len()
        invariant
            i <= m@.len(),
            forall|j: int| 0 <= j < i ==> (#[trigger] members(m@)[j]).0 != key@,
        decreases m@.len() - i,
    {
        assert(members(m@)[i as int].0 == m@[i as int].0@);
        if text::same(m[i].0.as_str(), key) {
            proof {
                lemma_key_index_is(members(m@), key@, i as int);
            }
            return Some(i);
        }
        i = i + 1;
    }
    proof {
        lemma_key_index(members(m@), key@);
    }
    None
}

/// What is put under a key is found under it, and nothing else changes.
pub proof fn law_put_then_get(t: Tree, key: Seq<char>, v: Tree, other: Seq<char>)
    requires
        t is Obj,
    ensures
        t.put(key, v) is Obj,
        t.put(key, v).get(key) == Some(v),
        other != key ==> t.put(key, v).get(other) == t.get(other),
{
    let m = t->Obj_0;
    let n = t.put(key, v)->Obj_0;
    lemma_key_index(m, key);
    lemma_key_index(n, key);
    match key_index(m, key) {
        Some(i) => {
            assert forall|j: int| 0 <= j < i implies (#[trigger] n[j]).0 != key by {
                assert(m[j].0 != key);
            }
            lemma_key_index_is(n, key, i);
        },
        None => {
            assert forall|j: int| 0 <= j < m.len() implies (#[trigger] n[j]).0 != key by {
                assert(m[j].0 != key);
            }
            lemma_key_index_is(n, key, m.len() as int);
        },
    }
    if other != key {
        lemma_key_index(m, other);
        lemma_key_index(n, other);
        match key_index(m, other) {
            Some(i) => {
                assert(n[i] == m[i]);
                assert forall|j: int| 0 <= j < i implies (#[trigger] n[j]).0 != other by {
                    assert(m[j].0 != other);
                }
                lemma_key_index_is(n, other, i);
            },
            None => {
                assert forall|j: int| 0 <= j < n.len() implies (#[trigger] n[j]).0 != other by {
                    if j < m.len() {
                        assert(m[j].0 != other);
                    }
                }
                if key_index(n, other) is Some {
                    assert(n[key_index(n, other)->0].0 != other);
                }
            },
        }
    }
}

} // verus!
