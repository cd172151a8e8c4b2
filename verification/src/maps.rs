//! The maps behind the resolver: from a file extension to its comment types,
//! and on to the expressions compiled for them.
use vstd::prelude::*;
use fnv::FnvHashMap;
use regex::Regex;
use crate::comments::{CommentKind, CommentTypes};
use crate::parser::{build_parser_regexs, parser_regexs};
use crate::text::views;

verus! {

/// `fnv::FnvHasher`, the hasher of an `FnvHashMap`. Nothing is said of it.
#[verifier::external_type_specification]
#[verifier::external_body]
pub struct ExFnvHasher(fnv::FnvHasher);

/// `BuildHasherDefault` of `std`, which makes the hashers of an `FnvHashMap`.
/// Nothing is said of it.
#[verifier::external_type_specification]
#[verifier::external_body]
#[verifier::reject_recursive_types(H)]
pub struct ExBuildHasherDefault<H>(core::hash::BuildHasherDefault<H>);

/// What a hash map from strings to indices holds: for each key, by its
/// characters, the index stored under it.
pub uninterp spec fn entries_of(map: FnvHashMap<String, usize>) -> Map<Seq<char>, usize>;

/// `FnvHashMap::default`: a map that holds nothing.
#[verifier::external_body]
fn map_new() -> (map: FnvHashMap<String, usize>)
    ensures
        entries_of(map).dom() == Set::<Seq<char>>::empty(),
{
    FnvHashMap::default()
}

/// `HashMap::insert`: stores `v` under `k`, in place of what was stored under
/// an equal key, and returns what was stored there before.
#[verifier::external_body]
fn map_insert(map: &mut FnvHashMap<String, usize>, k: String, v: usize) -> (before: Option<usize>)
    ensures
        entries_of(*final(map)) == entries_of(*old(map)).insert(k@, v),
        before == (if entries_of(*old(map)).contains_key(k@) {
            Some(entries_of(*old(map))[k@])
        } else {
            None
        }),
{
    map.insert(k, v)
}

/// `HashMap::get`: the index stored under a key equal to `k`, if there is one.
#[verifier::external_body]
fn map_get(map: &FnvHashMap<String, usize>, k: &str) -> (found: Option<usize>)
    ensures
        found == (if entries_of(*map).contains_key(k@) {
            Some(entries_of(*map)[k@])
        } else {
            None
        }),
{
    map.get(k).copied()
}

/// A map from strings to indices that answers with a fallback index for a
/// key that was never inserted.
#[derive(Debug, Clone)]
pub struct FallbackHashMap {
    map: FnvHashMap<String, usize>,
    fallback_value: usize,
}

impl FallbackHashMap {
    /// What was inserted: for each key the index last stored under it.
    pub closed spec fn entries(&self) -> Map<Seq<char>, usize> {
        entries_of(self.map)
    }

    /// The index that stands in for a missing key.
    pub closed spec fn fallback(&self) -> usize {
        self.fallback_value
    }

    /// The index that `get` answers with for `k`.
    pub open spec fn lookup(&self, k: Seq<char>) -> usize {
        if self.entries().contains_key(k) {
            self.entries()[k]
        } else {
            self.fallback()
        }
    }

    /// A map with no entries.
    pub fn new(fallback_value: usize) -> (map: FallbackHashMap)
        ensures
            map.entries().dom() == Set::<Seq<char>>::empty(),
            map.fallback() == fallback_value,
    {
        FallbackHashMap { map: map_new(), fallback_value }
    }

    /// Stores `v` under `k`, and returns what was stored there before.
    pub fn insert(&mut self, k: String, v: usize) -> (before: Option<usize>)
        ensures
            final(self).entries() == old(self).entries().insert(k@, v),
            final(self).fallback() == old(self).fallback(),
            before == (if old(self).entries().contains_key(k@) {
                Some(old(self).entries()[k@])
            } else {
                None
            }),
    {
        map_insert(&mut self.map, k, v)
    }

    /// The index stored under `k`, or the fallback if `k` was never inserted.
    pub fn get(&self, k: &str) -> (v: usize)
        ensures
            v == self.lookup(k@),
    {
        match map_get(&self.map, k) {
            Some(v) => v,
            None => self.fallback_value,
        }
    }

    /// The index stored under `k`, or `None` if `k` was never inserted.
    pub fn get_without_fallback(&self, k: &str) -> (v: Option<usize>)
        ensures
            v == (if self.entries().contains_key(k@) {
                Some(self.entries()[k@])
            } else {
                None
            }),
    {
        map_get(&self.map, k)
    }
}

/// `slots` with each of the keys stored anew, under the index `slot`.
pub open spec fn with_keys(slots: Map<Seq<char>, usize>, keys: Seq<Seq<char>>, slot: usize) -> Map<
    Seq<char>,
    usize,
>
    decreases keys.len(),
{
    if keys.len() == 0 {
        slots
    } else {
        with_keys(slots, keys.drop_last(), slot).insert(keys.last(), slot)
    }
}

/// What a `CommentRegexMultiMap` stands for.
///
/// The comment types live in numbered slots. Slot 0 is the fallback; each key
/// points to a slot, and several keys may share one. Beside each slot stands
/// the set of expressions compiled for it, once it has been asked for.
pub struct MultiMapView {
    /// The slot of each key.
    pub slots: Map<Seq<char>, usize>,
    /// The comment kinds of each slot.
    pub types: Seq<Seq<CommentKind>>,
    /// The expressions of each slot, where they were built.
    pub cache: Seq<Option<Seq<Regex>>>,
}

impl MultiMapView {
    /// There is a fallback slot, each slot has its place in the cache, and
    /// each key points to a slot other than the fallback.
    pub open spec fn wf(self) -> bool {
        &&& self.types.len() >= 1
        &&& self.cache.len() == self.types.len()
        &&& forall|k: Seq<char>|
            #![trigger self.slots.contains_key(k)]
            self.slots.contains_key(k) ==> 1 <= self.slots[k] < self.types.len()
    }

    /// The slot that answers for `k`: its own, or the fallback.
    pub open spec fn slot_of(self, k: Seq<char>) -> int {
        if self.slots.contains_key(k) {
            self.slots[k] as int
        } else {
            0
        }
    }

    /// The expressions that a slot hands out when asked with the given tags:
    /// those it holds already, whatever the tags, else those built now.
    pub open spec fn slot_regexs(self, slot: int, tags: Seq<Seq<char>>) -> Result<
        Seq<Regex>,
        regex::Error,
    > {
        match self.cache[slot] {
            Some(res) => Ok(res),
            None => parser_regexs(self.types[slot], tags),
        }
    }

    /// The map after slot `slot` was asked with the given tags: a set that was
    /// built now is kept; nothing else changes.
    pub open spec fn after_asking(self, slot: int, tags: Seq<Seq<char>>) -> MultiMapView {
        match self.slot_regexs(slot, tags) {
            Ok(res) => MultiMapView { cache: self.cache.update(slot, Some(res)), ..self },
            Err(_) => self,
        }
    }

    /// The map with one more slot for `types`, and each of the keys pointing
    /// to it.
    pub open spec fn with_slot(self, keys: Seq<Seq<char>>, types: Seq<CommentKind>) -> MultiMapView {
        MultiMapView {
            slots: with_keys(self.slots, keys, self.types.len() as usize),
            types: self.types.push(types),
            cache: self.cache.push(None),
        }
    }

    /// The map with new comment kinds in the fallback slot, and no
    /// expressions built for it.
    pub open spec fn with_fallback(self, types: Seq<CommentKind>) -> MultiMapView {
        MultiMapView {
            slots: self.slots,
            types: self.types.update(0, types),
            cache: self.cache.update(0, None),
        }
    }
}

/// The views of the comment types of each slot.
pub open spec fn slot_kinds(types: Seq<CommentTypes>) -> Seq<Seq<CommentKind>> {
    types.map_values(|t: CommentTypes| t@)
}

/// The views of the expressions of each slot.
pub open spec fn slot_sets(regexs: Seq<Option<Vec<Regex>>>) -> Seq<Option<Seq<Regex>>> {
    regexs.map_values(
        |set: Option<Vec<Regex>>|
            match set {
                Some(res) => Some(res@),
                None => None,
            },
    )
}

/// A value stands in a sequence that is not empty if it stands in all but
/// the last place, or is the last.
pub proof fn lemma_contains_last(keys: Seq<Seq<char>>, k: Seq<char>)
    requires
        keys.len() > 0,
    ensures
        keys.contains(k) <==> keys.drop_last().contains(k) || k == keys.last(),
{
    let before = keys.drop_last();
    if keys.contains(k) {
        let i = choose|i: int| 0 <= i < keys.len() && keys[i] == k;
        if i < keys.len() - 1 {
            assert(before[i] == k);
        }
    }
    if before.contains(k) {
        let i = choose|i: int| 0 <= i < before.len() && before[i] == k;
        assert(keys[i] == k);
    }
    if k == keys.last() {
        assert(keys[keys.len() - 1] == k);
    }
}

/// Where a key points in `with_keys`: to the new slot if it is one of the
/// keys, else where it pointed before.
pub proof fn lemma_with_keys(slots: Map<Seq<char>, usize>, keys: Seq<Seq<char>>, slot: usize, k: Seq<char>)
    ensures
        keys.contains(k) ==> with_keys(slots, keys, slot).contains_key(k) && with_keys(
            slots,
            keys,
            slot,
        )[k] == slot,
        !keys.contains(k) ==> (with_keys(slots, keys, slot).contains_key(k)
            <==> slots.contains_key(k)) && with_keys(slots, keys, slot)[k] == slots[k],
    decreases keys.len(),
{
    if keys.len() > 0 {
        lemma_with_keys(slots, keys.drop_last(), slot, k);
        lemma_contains_last(keys, k);
    }
}

/// A map from keys to comment types that hands out, for a key, the
/// expressions built from its comment types.
///
/// Keys that were inserted together share one slot, so the comment types and
/// their expressions are stored once for all of them. The expressions of a
/// slot are built when they are first asked for, and kept. Nothing is ever
/// removed.
#[derive(Debug, Clone)]
pub struct CommentRegexMultiMap {
    map: FallbackHashMap,
    comment_types: Vec<CommentTypes>,
    regexs: Vec<Option<Vec<Regex>>>,
}

impl View for CommentRegexMultiMap {
    type V = MultiMapView;

    closed spec fn view(&self) -> MultiMapView {
        MultiMapView {
            slots: self.map.entries(),
            types: slot_kinds(self.comment_types@),
            cache: slot_sets(self.regexs@),
        }
    }
}

impl CommentRegexMultiMap {
    /// What every map of this type has: a well-formed view, and 0 as the
    /// fallback slot.
    pub closed spec fn wf(&self) -> bool {
        &&& self@.wf()
        &&& self.map.fallback() == 0
    }

    /// The view of a well-formed map is well formed.
    pub proof fn lemma_wf_view(&self)
        requires
            self.wf(),
        ensures
            self@.wf(),
    {
    }

    /// A map with no keys, whose fallback slot holds `fallback_value`.
    pub fn new(fallback_value: CommentTypes) -> (map: CommentRegexMultiMap)
        ensures
            map.wf(),
            map@.slots.dom() == Set::<Seq<char>>::empty(),
            map@.types == seq![fallback_value@],
            map@.cache == seq![None::<Seq<Regex>>],
    {
        let mut comment_types = Vec::new();
        comment_types.push(fallback_value);
        let mut regexs: Vec<Option<Vec<Regex>>> = Vec::new();
        regexs.push(None);
        let map = CommentRegexMultiMap { map: FallbackHashMap::new(0), comment_types, regexs };
        proof {
            assert(map@.types =~= seq![fallback_value@]);
            assert(map@.cache =~= seq![None::<Seq<Regex>>]);
            assert forall|k: Seq<char>| !map@.slots.contains_key(k) by {
                assert(!map@.slots.dom().contains(k));
            }
        }
        map
    }

    /// Gives `v` a slot of its own, and points `k` to it.
    pub fn insert(&mut self, k: String, v: CommentTypes)
        requires
            old(self).wf(),
        ensures
            final(self).wf(),
            final(self)@ == old(self)@.with_slot(seq![k@], v@),
    {
        let i = self.comment_types.len();
        self.map.insert(k, i);
        self.comment_types.push(v);
        self.regexs.push(None);
        proof {
            let keys = seq![k@];
            assert(keys.drop_last() =~= Seq::<Seq<char>>::empty());
            assert(with_keys(old(self)@.slots, keys.drop_last(), i) == old(self)@.slots);
            assert(with_keys(old(self)@.slots, keys, i) == old(self)@.slots.insert(k@, i));
            assert(self@.types =~= old(self)@.types.push(v@));
            assert(self@.cache =~= old(self)@.cache.push(None));
        }
    }

    /// Gives `v` a slot of its own, and points every key of `ks` to it.
    pub fn insert_keys(&mut self, ks: Vec<String>, v: CommentTypes)
        requires
            old(self).wf(),
        ensures
            final(self).wf(),
            final(self)@ == old(self)@.with_slot(views(ks@), v@),
    {
        let i = self.comment_types.len();
        let ghost keys = views(ks@);
        assert(keys.take(0) =~= Seq::<Seq<char>>::empty());
        for k in it: ks
            invariant
                it.seq() == ks@,
                keys == views(ks@),
                self.comment_types == old(self).comment_types,
                self.regexs == old(self).regexs,
                self.map.fallback() == old(self).map.fallback(),
                self.map.entries() == with_keys(
                    old(self).map.entries(),
                    keys.take(it.index() as int),
                    i,
                ),
        {
            proof {
                let n = it.index() as int;
                assert(keys.take(n + 1).drop_last() =~= keys.take(n));
                assert(keys.take(n + 1).last() == k@);
            }
            self.map.insert(k, i);
        }
        self.comment_types.push(v);
        self.regexs.push(None);
        proof {
            assert(keys.take(keys.len() as int) =~= keys);
            assert forall|k: Seq<char>|
                #![trigger self@.slots.contains_key(k)]
                self@.slots.contains_key(k) implies 1 <= self@.slots[k] < self@.types.len() by {
                lemma_with_keys(old(self)@.slots, keys, i, k);
            }
            assert(self@.types =~= old(self)@.types.push(v@));
            assert(self@.cache =~= old(self)@.cache.push(None));
        }
    }

    /// The expressions built from the comment types that `k` points to, or
    /// from those of the fallback slot if `k` was never inserted.
    ///
    /// The expressions of a slot are built on the first call that reaches it,
    /// with the tags of that call, and handed out again by every later call,
    /// whatever its tags. If a pattern does not compile, the engine's error is
    /// returned and nothing is kept.
    pub fn get(&mut self, k: &str, tags: &[String]) -> (r: Result<&Vec<Regex>, regex::Error>)
        requires
            old(self).wf(),
        ensures
            final(self).wf(),
            final(self)@ == old(self)@.after_asking(old(self)@.slot_of(k@), views(tags@)),
            same_sets(r, old(self)@.slot_regexs(old(self)@.slot_of(k@), views(tags@))),
    {
        let v_i = self.map.get(k);
        self.get_slot(v_i, tags)
    }

    /// Same as `get`, but for a key that was never inserted the answer is
    /// `Ok(None)` and nothing is built.
    pub fn get_without_fallback(&mut self, k: &str, tags: &[String]) -> (r: Result<
        Option<&Vec<Regex>>,
        regex::Error,
    >)
        requires
            old(self).wf(),
        ensures
            final(self).wf(),
            old(self)@.slots.contains_key(k@) ==> {
                &&& final(self)@ == old(self)@.after_asking(
                    old(self)@.slot_of(k@),
                    views(tags@),
                )
                &&& match old(self)@.slot_regexs(old(self)@.slot_of(k@), views(tags@)) {
                    Ok(res) => r is Ok && r->Ok_0 is Some && r->Ok_0->Some_0@ == res,
                    Err(e) => r is Err && r->Err_0 == e,
                }
            },
            !old(self)@.slots.contains_key(k@) ==> {
                &&& final(self)@ == old(self)@
                &&& r is Ok
                &&& r->Ok_0 is None
            },
    {
        match self.map.get_without_fallback(k) {
            Some(v_i) => {
                match self.get_slot(v_i, tags) {
                    Ok(res) => Ok(Some(res)),
                    Err(e) => Err(e),
                }
            },
            None => Ok(None),
        }
    }

    /// Hands out the expressions of slot `v_i`, building them first if they
    /// were never asked for.
    fn get_slot(&mut self, v_i: usize, tags: &[String]) -> (r: Result<&Vec<Regex>, regex::Error>)
        requires
            old(self).wf(),
            v_i < old(self)@.types.len(),
        ensures
            final(self).wf(),
            final(self)@ == old(self)@.after_asking(v_i as int, views(tags@)),
            same_sets(r, old(self)@.slot_regexs(v_i as int, views(tags@))),
    {
        if self.regexs[v_i].is_none() {
            match build_parser_regexs(&self.comment_types[v_i], tags) {
                Ok(regexs) => {
                    self.regexs[v_i] = Some(regexs);
                    assert(self@.cache =~= old(self)@.cache.update(v_i as int, Some(regexs@)));
                    assert(self@.slots == old(self)@.slots);
                },
                Err(e) => {
                    return Err(e);
                },
            }
        } else {
            assert(old(self)@.cache.update(v_i as int, old(self)@.cache[v_i as int])
                =~= old(self)@.cache);
        }
        Ok(self.regexs[v_i].as_ref().unwrap())
    }

    /// Puts new comment types into the fallback slot. Its expressions will be
    /// built anew.
    pub fn reset_fallback_value(&mut self, new_fallback_value: CommentTypes)
        requires
            old(self).wf(),
        ensures
            final(self).wf(),
            final(self)@ == old(self)@.with_fallback(new_fallback_value@),
    {
        self.comment_types[0] = new_fallback_value;
        self.regexs[0] = None;
        proof {
            assert(self@.types =~= old(self)@.types.update(0, new_fallback_value@));
            assert(self@.cache =~= old(self)@.cache.update(0, None));
            assert(self@.slots == old(self)@.slots);
        }
    }

    /// Makes the comment types that `new_fallback_key` points to the fallback
    /// as well, and returns them. Returns `None`, and changes nothing, if the
    /// key was never inserted.
    pub fn reset_fallback_key(&mut self, new_fallback_key: &str) -> (r: Option<&CommentTypes>)
        requires
            old(self).wf(),
        ensures
            final(self).wf(),
            old(self)@.slots.contains_key(new_fallback_key@) ==> {
                &&& final(self)@ == old(self)@.with_fallback(
                    old(self)@.types[old(self)@.slot_of(new_fallback_key@)],
                )
                &&& r is Some
                &&& r->Some_0@ == final(self)@.types[0]
            },
            !old(self)@.slots.contains_key(new_fallback_key@) ==> {
                &&& final(self)@ == old(self)@
                &&& r is None
            },
    {
        match self.map.get_without_fallback(new_fallback_key) {
            Some(v_i) => {
                assert(old(self)@.slots.contains_key(new_fallback_key@));
                let types = self.comment_types[v_i].clone();
                self.comment_types[0] = types;
                self.regexs[0] = None;
                proof {
                    assert(self@.slots == old(self)@.slots);
                    assert(self@.types =~= old(self)@.types.update(
                        0,
                        old(self)@.types[v_i as int],
                    ));
                    assert(self@.cache =~= old(self)@.cache.update(0, None));
                }
                Some(&self.comment_types[0])
            },
            None => None,
        }
    }
}

/// Whether the outcome `r` is the outcome `model`, expression for expression.
pub open spec fn same_sets(
    r: Result<&Vec<Regex>, regex::Error>,
    model: Result<Seq<Regex>, regex::Error>,
) -> bool {
    match model {
        Ok(res) => r is Ok && r->Ok_0@ == res,
        Err(e) => r is Err && r->Err_0 == e,
    }
}

} // verus!
