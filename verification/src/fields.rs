//! Typed members of JSON objects: what a reply must hold for it to be understood.
//!
//! Each reader gives nothing where the member has the wrong type. A member that
//! may be missing may also be `null`, unless it has a default of its own.
//!
//! A record is an object whose members have names that are known. It may also be written
//! as the list of the values of its members, in the order of their names, and its last
//! members may be left out of the list where they have a default of their own. Where a
//! name stands twice in an object, its last value counts.

use crate::json;
use crate::json::{Json, Tree};
use crate::text;
use vstd::prelude::*;

verus! {

/// A text that must be there.
pub open spec fn text_of(t: Tree, key: Seq<char>) -> Option<Seq<char>> {
    match t.get(key) {
        Some(Tree::Str(s)) => Some(s),
        _ => None,
    }
}

/// A text that may be missing or null.
pub open spec fn maybe_text(t: Tree, key: Seq<char>) -> Option<Option<Seq<char>>> {
    match t.get(key) {
        None => Some(None),
        Some(Tree::Null) => Some(None),
        Some(Tree::Str(s)) => Some(Some(s)),
        _ => None,
    }
}

/// A number within bounds that may be missing or null.
pub open spec fn maybe_number(t: Tree, key: Seq<char>, max: int) -> Option<Option<int>> {
    match t.get(key) {
        None => Some(None),
        Some(Tree::Null) => Some(None),
        Some(Tree::Int(n)) => if 0 <= n <= max {
            Some(Some(n))
        } else {
            None
        },
        _ => None,
    }
}

/// A number within bounds that is zero where it is missing.
pub open spec fn number_or_zero(t: Tree, key: Seq<char>, max: int) -> Option<int> {
    match t.get(key) {
        None => Some(0),
        Some(Tree::Int(n)) => if 0 <= n <= max {
            Some(n)
        } else {
            None
        },
        _ => None,
    }
}

/// A number within bounds that must be there.
pub open spec fn number_of(t: Tree, key: Seq<char>, max: int) -> Option<int> {
    match t.get(key) {
        Some(Tree::Int(n)) => if 0 <= n <= max {
            Some(n)
        } else {
            None
        },
        _ => None,
    }
}

/// A list that is empty where it is missing.
pub open spec fn list_or_empty(t: Tree, key: Seq<char>) -> Option<Seq<Tree>> {
    match t.get(key) {
        None => Some(Seq::empty()),
        Some(Tree::Arr(v)) => Some(v),
        _ => None,
    }
}

/// A list that must be there.
pub open spec fn list_of(t: Tree, key: Seq<char>) -> Option<Seq<Tree>> {
    match t.get(key) {
        Some(Tree::Arr(v)) => Some(v),
        _ => None,
    }
}

/// A member that counts as missing where it is null.
pub open spec fn maybe_member(t: Tree, key: Seq<char>) -> Option<Tree> {
    match t.get(key) {
        None => None,
        Some(Tree::Null) => None,
        Some(v) => Some(v),
    }
}

/// A yes or no that may be missing or null.
pub open spec fn maybe_bool(t: Tree, key: Seq<char>) -> Option<Option<bool>> {
    match t.get(key) {
        None => Some(None),
        Some(Tree::Null) => Some(None),
        Some(Tree::Bool(b)) => Some(Some(b)),
        _ => None,
    }
}

/// The texts of names.
pub open spec fn names_of(names: Seq<&str>) -> Seq<Seq<char>> {
    names.map_values(|n: &str| n@)
}

/// A record as an object. A list is taken for the values of the members, of which the
/// first `needed` must be there; a list that is too short or too long is no record.
pub open spec fn record(t: Tree, names: Seq<Seq<char>>, needed: int) -> Tree {
    match t {
        Tree::Arr(v) => if needed <= v.len() <= names.len() {
            Tree::Obj(Seq::new(v.len(), |i: int| (names[i], v[i])))
        } else {
            Tree::Null
        },
        _ => t,
    }
}

/// A list as the record that it stands for; nothing where the value is no list.
pub fn read_listed(j: &Json, names: &[&str], needed: usize) -> (r: Option<Json>)
    ensures
        r matches Some(o) ==> o@ == record(j@, names_of(names@), needed as int),
        r is None ==> record(j@, names_of(names@), needed as int) == j@,
{
    let v = match j.as_array() {
        Some(v) => v,
        None => return None,
    };
    if v.len() < needed || v.len() > names.len() {
        return Some(Json::Null);
    }
    let ghost all = Seq::new(v@.len(), |i: int| (names_of(names@)[i], json::trees(v@)[i]));
    let mut out: Vec<(String, Json)> = Vec::new();
    let mut i: usize = 0;
    while i < v.len()
        invariant
            i <= v@.len() <= names@.len(),
            all == Seq::new(v@.len(), |i: int| (names_of(names@)[i], json::trees(v@)[i])),
            json::members(out@) =~= all.take(i as int),
        decreases v@.len() - i,
    {
        let name: &str = names[i];
        assert(all[i as int] == (name@, v@[i as int]@));
        let c = v[i].copy();
        let ghost before = out@;
        out.push((name.to_owned(), c));
        assert(json::members(out@) =~= json::members(before).push((name@, c@)));
        i = i + 1;
    }
    assert(all.take(i as int) =~= all);
    let o = Json::Obj(out);
    assert(o@->Obj_0 =~= json::members(out@));
    Some(o)
}

/// The text of an optional outcome that may itself be missing.
pub open spec fn opt_opt(r: Option<Option<String>>) -> Option<Option<Seq<char>>> {
    match r {
        None => None,
        Some(o) => Some(text::opt(o)),
    }
}

/// A text that must be there.
pub fn read_text(j: &Json, key: &str) -> (r: Option<String>)
    ensures
        text::opt(r) == text_of(j@, key@),
{
    match j.get(key) {
        Some(Json::Str(s)) => Some(s.clone()),
        _ => None,
    }
}

/// A text that may be missing or null.
pub fn read_maybe_text(j: &Json, key: &str) -> (r: Option<Option<String>>)
    ensures
        opt_opt(r) == maybe_text(j@, key@),
{
    match j.get(key) {
        None => Some(None),
        Some(Json::Null) => Some(None),
        Some(Json::Str(s)) => Some(Some(s.clone())),
        _ => None,
    }
}

/// A 64-bit number that may be missing or null.
pub fn read_maybe_number(j: &Json, key: &str, max: u64) -> (r: Option<Option<u64>>)
    ensures
        r matches Some(Some(n)) ==> maybe_number(j@, key@, max as int) == Some(Some(n as int)) && n
            <= max,
        r matches Some(None) ==> maybe_number(j@, key@, max as int) == Some(None::<int>),
        r is None ==> maybe_number(j@, key@, max as int) is None,
{
    match j.get(key) {
        None => Some(None),
        Some(Json::Null) => Some(None),
        Some(Json::Int(n)) => {
            if 0 <= *n && *n <= max as i128 {
                Some(Some(*n as u64))
            } else {
                None
            }
        },
        _ => None,
    }
}

/// A 64-bit number that is zero where it is missing.
pub fn read_number_or_zero(j: &Json, key: &str, max: u64) -> (r: Option<u64>)
    ensures
        r matches Some(n) ==> number_or_zero(j@, key@, max as int) == Some(n as int) && n <= max,
        r is None ==> number_or_zero(j@, key@, max as int) is None,
{
    match j.get(key) {
        None => Some(0),
        Some(Json::Int(n)) => {
            if 0 <= *n && *n <= max as i128 {
                Some(*n as u64)
            } else {
                None
            }
        },
        _ => None,
    }
}

/// A 64-bit number that must be there.
pub fn read_number(j: &Json, key: &str, max: u64) -> (r: Option<u64>)
    ensures
        r matches Some(n) ==> number_of(j@, key@, max as int) == Some(n as int) && n <= max,
        r is None ==> number_of(j@, key@, max as int) is None,
{
    match j.get(key) {
        Some(Json::Int(n)) => {
            if 0 <= *n && *n <= max as i128 {
                Some(*n as u64)
            } else {
                None
            }
        },
        _ => None,
    }
}

/// The trees of an optional list.
pub open spec fn opt_trees(r: Option<&Vec<Json>>) -> Option<Seq<Tree>> {
    match r {
        Some(v) => Some(json::trees(v@)),
        None => None,
    }
}

/// A list that must be there.
pub fn read_list<'a>(j: &'a Json, key: &str) -> (r: Option<&'a Vec<Json>>)
    ensures
        opt_trees(r) == list_of(j@, key@),
{
    match j.get(key) {
        Some(v) => v.as_array(),
        _ => None,
    }
}

/// A list that is empty where it is missing: the list, or whether the member is
/// missing.
pub fn read_list_or_empty<'a>(j: &'a Json, key: &str) -> (r: Option<Option<&'a Vec<Json>>>)
    ensures
        r matches Some(Some(v)) ==> list_or_empty(j@, key@) == Some(json::trees(v@)),
        r matches Some(None) ==> list_or_empty(j@, key@) == Some(Seq::<Tree>::empty()),
        r is None ==> list_or_empty(j@, key@) is None,
{
    match j.get(key) {
        None => Some(None),
        Some(v) => match v.as_array() {
            Some(a) => Some(Some(a)),
            None => None,
        },
    }
}

/// A member that counts as missing where it is null.
pub fn read_member<'a>(j: &'a Json, key: &str) -> (r: Option<&'a Json>)
    ensures
        r matches Some(v) ==> maybe_member(j@, key@) == Some(v@),
        r is None ==> maybe_member(j@, key@) is None,
{
    match j.get(key) {
        None => None,
        Some(Json::Null) => None,
        Some(v) => Some(v),
    }
}

/// A yes or no that may be missing or null.
pub fn read_maybe_bool(j: &Json, key: &str) -> (r: Option<Option<bool>>)
    ensures
        r == maybe_bool(j@, key@),
{
    match j.get(key) {
        None => Some(None),
        Some(Json::Null) => Some(None),
        Some(Json::Bool(b)) => Some(Some(*b)),
        _ => None,
    }
}

} // verus!
