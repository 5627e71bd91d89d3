//! The languages that were loaded last.

use crate::services::tree_sitter::parser;
use crate::services::tree_sitter::parser::{
    Failure, LanguageParserEntry, LanguageParserError, LanguageParserMap, LanguageValue,
};
use vstd::prelude::*;

verus! {

/// A cache of the `lru` crate.
#[verifier::external_type_specification]
#[verifier::external_body]
#[verifier::reject_recursive_types(K)]
#[verifier::reject_recursive_types(V)]
#[verifier::reject_recursive_types(S)]
pub struct ExLruCache<K, V, S>(lru::LruCache<K, V, S>);

/// The hasher of a cache of the `lru` crate.
#[verifier::external_type_specification]
#[verifier::external_body]
pub struct ExDefaultHasher(lru::DefaultHasher);

/// What a cache holds, the most recently used first.
pub uninterp spec fn held(
    c: lru::LruCache<String, LanguageParserEntry>,
) -> Seq<(Seq<char>, LanguageValue)>;

/// How much a cache can hold.
pub uninterp spec fn room(c: lru::LruCache<String, LanguageParserEntry>) -> int;

/// The position of a key.
pub open spec fn position(v: Seq<(Seq<char>, LanguageValue)>, key: Seq<char>) -> Option<int>
    decreases v.len(),
{
    if v.len() == 0 {
        None
    } else if v.last().0 == key {
        Some(v.len() - 1)
    } else {
        position(v.drop_last(), key)
    }
}

/// What is held without a key.
pub open spec fn without(
    v: Seq<(Seq<char>, LanguageValue)>,
    key: Seq<char>,
) -> Seq<(Seq<char>, LanguageValue)> {
    match position(v, key) {
        Some(i) => v.remove(i),
        None => v,
    }
}

/// What is held after a key was put: the key first, and the least recently used left out
/// where there is no room for it.
pub open spec fn after_put(
    v: Seq<(Seq<char>, LanguageValue)>,
    room: int,
    key: Seq<char>,
    l: LanguageValue,
) -> Seq<(Seq<char>, LanguageValue)> {
    let all = seq![(key, l)] + without(v, key);
    if position(v, key) is None && v.len() == room {
        all.drop_last()
    } else {
        all
    }
}

/// Calls `LruCache::new`: the cache is empty and holds up to `cap` items.
#[verifier::external_body]
fn new_cache(cap: usize) -> (r: lru::LruCache<String, LanguageParserEntry>)
    requires
        cap > 0,
    ensures
        held(r) == Seq::<(Seq<char>, LanguageValue)>::empty(),
        room(r) == cap,
{
    lru::LruCache::new(std::num::NonZero::new(cap).unwrap())
}

/// Calls `LruCache::get`: the value under a key, which becomes the most recently used.
#[verifier::external_body]
fn cache_get(c: &mut lru::LruCache<String, LanguageParserEntry>, key: &str) -> (r: Option<
    LanguageParserEntry,
>)
    ensures
        room(*final(c)) == room(*old(c)),
        match position(held(*old(c)), key@) {
            Some(i) => r is Some && (r->0)@ == held(*old(c))[i].1 && held(*final(c)) == seq![
                held(*old(c))[i],
            ] + held(*old(c)).remove(i),
            None => r is None && held(*final(c)) == held(*old(c)),
        },
{
    c.get(key).copied()
}

/// Calls `LruCache::put`: the key holds the value and is the most recently used. Where the
/// cache was full and did not have the key, the least recently used item is left out.
#[verifier::external_body]
fn cache_put(c: &mut lru::LruCache<String, LanguageParserEntry>, key: &str, e: LanguageParserEntry)
    ensures
        room(*final(c)) == room(*old(c)),
        held(*final(c)) == after_put(held(*old(c)), room(*old(c)), key@, e@),
{
    c.put(key.to_owned(), e);
}

/// The languages that were loaded last, at most 256 of them.
pub struct ParserCache {
    cache: lru::LruCache<String, LanguageParserEntry>,
}

/// Every language that is held is the one that loading its extension gives.
pub open spec fn all_loaded(v: Seq<(Seq<char>, LanguageValue)>) -> bool {
    forall|i: int|
        #![trigger v[i]]
        0 <= i < v.len() ==> parser::load(v[i].0) == Ok::<LanguageValue, Failure>(v[i].1)
}

impl ParserCache {
    #[verifier::type_invariant]
    closed spec fn wf(&self) -> bool {
        &&& all_loaded(held(self.cache))
        &&& held(self.cache).len() <= room(self.cache) == 256
    }

    /// The languages that are held.
    pub closed spec fn languages(&self) -> Seq<(Seq<char>, LanguageValue)> {
        held(self.cache)
    }

    /// A cache without languages.
    pub fn new() -> (r: ParserCache)
        ensures
            r.languages() == Seq::<(Seq<char>, LanguageValue)>::empty(),
    {
        ParserCache { cache: new_cache(256) }
    }

    /// Loads the language parser for an extension, from the cache where it is held. What
    /// is held makes no difference to the outcome.
    pub fn load_language_parser(&mut self, ext: &str) -> (r: Result<
        LanguageParserEntry,
        LanguageParserError,
    >)
        ensures
            r matches Ok(e) ==> parser::load(ext@) == Ok::<LanguageValue, Failure>(e@),
            r matches Err(e) ==> parser::load(ext@) == Err::<LanguageValue, Failure>(e@),
            final(self).languages().len() <= 256,
            r is Ok ==> final(self).languages().len() > 0 && final(self).languages()[0].0 == ext@,
            r is Err ==> final(self).languages() == old(self).languages(),
    {
        proof {
            use_type_invariant(&*self);
            lemma_position(held(self.cache), ext@);
        }
        let mut cache = new_cache(256);
        std::mem::swap(&mut self.cache, &mut cache);
        let ghost before = held(cache);
        let found = cache_get(&mut cache, ext);
        let outcome = match found {
            Some(e) => Ok(e),
            None => match parser::load_language_parser(ext) {
                Ok(e) => {
                    cache_put(&mut cache, ext, e);
                    Ok(e)
                },
                Err(e) => Err(e),
            },
        };
        std::mem::swap(&mut self.cache, &mut cache);
        outcome
    }

    /// Loads the language parsers for the given file paths, from the cache where they are
    /// held. What is held makes no difference to the outcome.
    pub fn load_required_language_parsers(&mut self, file_paths: &[&str]) -> (r: Result<
        LanguageParserMap,
        LanguageParserError,
    >)
        ensures
            r matches Ok(m) ==> parser::load_all(parser::extensions(file_paths@)) == Ok::<
                Seq<(Seq<char>, LanguageValue)>,
                Failure,
            >(m@),
            r matches Err(e) ==> parser::load_all(parser::extensions(file_paths@)) == Err::<
                Seq<(Seq<char>, LanguageValue)>,
                Failure,
            >(e@),
            final(self).languages().len() <= 256,
    {
        proof {
            use_type_invariant(&*self);
        }
        let ghost es = parser::extensions(file_paths@);
        let mut m = LanguageParserMap::new();
        let mut i: usize = 0;
        assert(es.take(0) =~= Seq::empty());
        while i < file_paths.len()
            invariant
                i <= file_paths@.len(),
                es == parser::extensions(file_paths@),
                parser::load_all(es.take(i as int)) == Ok::<
                    Seq<(Seq<char>, LanguageValue)>,
                    Failure,
                >(m@),
                self.languages().len() <= 256,
            decreases file_paths@.len() - i,
        {
            assert(es.take(i + 1).drop_last() =~= es.take(i as int));
            let ext = parser::get_extension(file_paths[i]);
            assert(es.take(i + 1).last() == ext@);
            if m.get(ext.as_str()).is_none() {
                match self.load_language_parser(ext.as_str()) {
                    Ok(e) => m.insert(ext.as_str(), e),
                    Err(e) => {
                        proof {
                            parser::lemma_load_all_fails(es, i + 1);
                        }
                        return Err(e);
                    },
                }
            }
            i = i + 1;
        }
        assert(es.take(i as int) =~= es);
        Ok(m)
    }
}

proof fn lemma_position(v: Seq<(Seq<char>, LanguageValue)>, key: Seq<char>)
    ensures
        position(v, key) matches Some(i) ==> 0 <= i < v.len() && v[i].0 == key,
    decreases v.len(),
{
    if v.len() > 0 && v.last().0 != key {
        lemma_position(v.drop_last(), key);
    }
}

} // verus!
