//! Property descriptors and the per-object property map.
//!
//! A named slot on an object is either a data property (a stored value plus
//! writable/enumerable/configurable flags) or an accessor property (a
//! getter/setter pair plus flags), never both. An object's own properties
//! form a map from names to descriptors; the map is modeled as
//! `Map<Seq<char>, PropertyV>` and stored as a vector of entries whose keys
//! are unique.

use crate::text::str_eq;
use crate::value::Value2;
use crate::value::ValueV;
use vstd::prelude::*;

verus! {

/// A stored value with its mutation flags.
pub struct DataProperty {
    pub val: Value2,
    pub writable: bool,
    pub enumerable: bool,
    pub configurable: bool,
}

/// A getter/setter pair with its mutation flags; `undefined` in either
/// place means that side is absent.
pub struct AccessorProperty {
    pub get: Value2,
    pub set: Value2,
    pub enumerable: bool,
    pub configurable: bool,
}

/// One named slot of an object.
pub enum Property2 {
    Data(DataProperty),
    Accessor(AccessorProperty),
}

/// The mathematical model of a property descriptor.
pub enum PropertyV {
    Data { val: ValueV, writable: bool, enumerable: bool, configurable: bool },
    Accessor { get: ValueV, set: ValueV, enumerable: bool, configurable: bool },
}

impl View for Property2 {
    type V = PropertyV;

    open spec fn view(&self) -> PropertyV {
        match self {
            Property2::Data(d) => PropertyV::Data {
                val: d.val@,
                writable: d.writable,
                enumerable: d.enumerable,
                configurable: d.configurable,
            },
            Property2::Accessor(a) => PropertyV::Accessor {
                get: a.get@,
                set: a.set@,
                enumerable: a.enumerable,
                configurable: a.configurable,
            },
        }
    }
}

/// The model of a freshly created own data property: all flags on.
pub open spec fn data_prop_v(val: ValueV) -> PropertyV {
    PropertyV::Data { val, writable: true, enumerable: true, configurable: true }
}

impl Property2 {
    /// A data property with the flags of a freshly created own property:
    /// writable, enumerable and configurable.
    pub fn new_data_simple(val: Value2) -> (r: Property2)
        ensures
            r@ == data_prop_v(val@),
    {
        Property2::Data(
            DataProperty { val, writable: true, enumerable: true, configurable: true },
        )
    }

    /// A data property with explicit flags.
    pub fn new_data(val: Value2, writable: bool, enumerable: bool, configurable: bool) -> (r:
        Property2)
        ensures
            r@ == (PropertyV::Data { val: val@, writable, enumerable, configurable }),
    {
        Property2::Data(DataProperty { val, writable, enumerable, configurable })
    }

    pub fn clone_prop(&self) -> (r: Property2)
        ensures
            r@ == self@,
    {
        self.clone()
    }
}

impl Clone for Property2 {
    fn clone(&self) -> (r: Self)
        ensures
            r@ == self@,
    {
        match self {
            Property2::Data(d) => Property2::Data(
                DataProperty {
                    val: d.val.clone(),
                    writable: d.writable,
                    enumerable: d.enumerable,
                    configurable: d.configurable,
                },
            ),
            Property2::Accessor(a) => Property2::Accessor(
                AccessorProperty {
                    get: a.get.clone(),
                    set: a.set.clone(),
                    enumerable: a.enumerable,
                    configurable: a.configurable,
                },
            ),
        }
    }
}

// ---------------------------------------------------------------------------
// The property map
// ---------------------------------------------------------------------------
/// The map an association list stands for: a later entry for a key would
/// shadow an earlier one, but a well-formed map keeps its keys unique.
pub open spec fn assoc_map(s: Seq<(Seq<char>, PropertyV)>) -> Map<Seq<char>, PropertyV>
    decreases s.len(),
{
    if s.len() == 0 {
        Map::empty()
    } else {
        assoc_map(s.drop_last()).insert(s.last().0, s.last().1)
    }
}

/// No two entries share a key.
pub open spec fn keys_unique(s: Seq<(Seq<char>, PropertyV)>) -> bool {
    forall|i: int, j: int| 0 <= i < j < s.len() ==> (#[trigger] s[i]).0 != (#[trigger] s[j]).0
}

pub proof fn lemma_assoc_index(s: Seq<(Seq<char>, PropertyV)>, i: int)
    requires
        keys_unique(s),
        0 <= i < s.len(),
    ensures
        assoc_map(s).contains_key(s[i].0),
        assoc_map(s)[s[i].0] == s[i].1,
    decreases s.len(),
{
    if i == s.len() - 1 {
    } else {
        assert(s.drop_last()[i] == s[i]);
        lemma_assoc_index(s.drop_last(), i);
        assert(s.last().0 != s[i].0);
    }
}

pub proof fn lemma_assoc_absent(s: Seq<(Seq<char>, PropertyV)>, k: Seq<char>)
    requires
        forall|i: int| 0 <= i < s.len() ==> (#[trigger] s[i]).0 != k,
    ensures
        !assoc_map(s).contains_key(k),
    decreases s.len(),
{
    if s.len() > 0 {
        assert(forall|i: int|
            0 <= i < s.len() - 1 ==> (#[trigger] s.drop_last()[i]).0 != k);
        lemma_assoc_absent(s.drop_last(), k);
        assert(s.last().0 != k);
    }
}

pub proof fn lemma_assoc_update(s: Seq<(Seq<char>, PropertyV)>, i: int, p: PropertyV)
    requires
        keys_unique(s),
        0 <= i < s.len(),
    ensures
        assoc_map(s.update(i, (s[i].0, p))) =~= assoc_map(s).insert(s[i].0, p),
    decreases s.len(),
{
    let u = s.update(i, (s[i].0, p));
    if i == s.len() - 1 {
        assert(u.drop_last() =~= s.drop_last());
        assert(u.last() == (s[i].0, p));
    } else {
        assert(u.drop_last() =~= s.drop_last().update(i, (s.drop_last()[i].0, p)));
        assert(u.last() == s.last());
        lemma_assoc_index(s, i);
        lemma_assoc_update(s.drop_last(), i, p);
        assert(s.last().0 != s[i].0);
        assert(assoc_map(u) =~= assoc_map(s.drop_last()).insert(s[i].0, p).insert(
            s.last().0,
            s.last().1,
        ));
    }
}

pub proof fn lemma_assoc_push(s: Seq<(Seq<char>, PropertyV)>, e: (Seq<char>, PropertyV))
    ensures
        assoc_map(s.push(e)) == assoc_map(s).insert(e.0, e.1),
{
    assert(s.push(e).drop_last() =~= s);
    assert(s.push(e).last() == e);
}

/// An object's own property map: names to descriptors, keys unique.
pub struct PropertyMap {
    entries: Vec<(String, Property2)>,
}

impl View for PropertyMap {
    type V = Map<Seq<char>, PropertyV>;

    open spec fn view(&self) -> Map<Seq<char>, PropertyV> {
        assoc_map(self.entries_view())
    }
}

impl PropertyMap {
    /// The entry list as the model sees it, in insertion order.
    pub closed spec fn entries_view(&self) -> Seq<(Seq<char>, PropertyV)> {
        self.entries@.map_values(|e: (String, Property2)| (e.0@, e.1@))
    }

    /// Well-formed: the keys are unique, so the entry list and the map
    /// agree.
    pub open spec fn wf(&self) -> bool {
        keys_unique(self.entries_view())
    }

    pub fn new() -> (r: PropertyMap)
        ensures
            r.wf(),
            r@ == Map::<Seq<char>, PropertyV>::empty(),
            r.entries_view() == Seq::<(Seq<char>, PropertyV)>::empty(),
    {
        let r = PropertyMap { entries: Vec::new() };
        proof {
            assert(r.entries_view() =~= Seq::<(Seq<char>, PropertyV)>::empty());
        }
        r
    }

    /// Looks a name up among the own properties.
    pub fn get<'a>(&'a self, key: &str) -> (r: Option<&'a Property2>)
        requires
            self.wf(),
        ensures
            match r {
                Some(p) => self@.contains_key(key@) && p@ == self@[key@],
                None => !self@.contains_key(key@),
            },
    {
        let n = self.entries.len();
        let mut i: usize = 0;
        while i < n
            invariant
                0 <= i <= n == self.entries@.len(),
                self.wf(),
                forall|k: int| 0 <= k < i ==> (#[trigger] self.entries_view()[k]).0 != key@,
            decreases n - i,
        {
            proof {
                assert(self.entries_view()[i as int] == (
                    self.entries@[i as int].0@,
                    self.entries@[i as int].1@,
                ));
            }
            if str_eq(self.entries[i].0.as_str(), key) {
                proof {
                    lemma_assoc_index(self.entries_view(), i as int);
                }
                return Some(&self.entries[i].1);
            }
            i = i + 1;
        }
        proof {
            lemma_assoc_absent(self.entries_view(), key@);
        }
        None
    }

    /// Does the map hold the name as an own property?
    pub fn contains(&self, key: &str) -> (r: bool)
        requires
            self.wf(),
        ensures
            r == self@.contains_key(key@),
    {
        self.get(key).is_some()
    }

    /// Inserts or overwrites the descriptor under a name.
    pub fn insert(&mut self, key: String, p: Property2)
        requires
            old(self).wf(),
        ensures
            final(self).wf(),
            final(self)@ == old(self)@.insert(key@, p@),
    {
        let ghost old_entries = self.entries_view();
        let n = self.entries.len();
        let mut i: usize = 0;
        while i < n
            invariant
                0 <= i <= n == self.entries@.len(),
                self.wf(),
                self.entries_view() == old_entries,
                old_entries == old(self).entries_view(),
                forall|k: int| 0 <= k < i ==> (#[trigger] self.entries_view()[k]).0 != key@,
            decreases n - i,
        {
            proof {
                assert(self.entries_view()[i as int] == (
                    self.entries@[i as int].0@,
                    self.entries@[i as int].1@,
                ));
            }
            if str_eq(self.entries[i].0.as_str(), key.as_str()) {
                self.entries[i].1 = p;
                proof {
                    assert(self.entries_view() =~= old_entries.update(
                        i as int,
                        (old_entries[i as int].0, p@),
                    ));
                    lemma_assoc_update(old_entries, i as int, p@);
                    assert(old_entries[i as int].0 == key@);
                    assert(keys_unique(self.entries_view()));
                    assert(self@ =~= old(self)@.insert(key@, p@));
                }
                return ;
            }
            i = i + 1;
        }
        self.entries.push((key, p));
        proof {
            assert(self.entries_view() =~= old_entries.push((key@, p@)));
            lemma_assoc_push(old_entries, (key@, p@));
            assert forall|a: int, b: int|
                0 <= a < b < self.entries_view().len() implies (
            #[trigger] self.entries_view()[a]).0 != (#[trigger] self.entries_view()[b]).0 by {
                if b < old_entries.len() {
                    assert(self.entries_view()[a] == old_entries[a]);
                    assert(self.entries_view()[b] == old_entries[b]);
                } else {
                    assert(self.entries_view()[b].0 == key@);
                    assert((old_entries[a]).0 != key@);
                }
            }
        }
    }

    /// How many own properties the object has.
    pub fn len(&self) -> (r: usize)
        requires
            self.wf(),
        ensures
            r == self.entries_view().len(),
    {
        self.entries.len()
    }

    /// Borrows the entry at a position, in insertion order; with [`Self::len`]
    /// this walks the whole map.
    pub fn entry_at<'a>(&'a self, i: usize) -> (r: (&'a String, &'a Property2))
        requires
            i < self.entries_view().len(),
        ensures
            self.entries_view()[i as int] == (r.0@, r.1@),
    {
        (&self.entries[i].0, &self.entries[i].1)
    }

    /// A deep copy with the same model.
    pub fn clone_map(&self) -> (r: PropertyMap)
        requires
            self.wf(),
        ensures
            r.wf(),
            r@ == self@,
            r.entries_view() == self.entries_view(),
    {
        let n = self.entries.len();
        let mut out: Vec<(String, Property2)> = Vec::new();
        let mut i: usize = 0;
        while i < n
            invariant
                0 <= i <= n == self.entries@.len(),
                out@.len() == i,
                forall|k: int|
                    0 <= k < i ==> (#[trigger] out@[k]).0@ == self.entries@[k].0@ && out@[k].1@
                        == self.entries@[k].1@,
            decreases n - i,
        {
            let key = self.entries[i].0.clone();
            let p = self.entries[i].1.clone_prop();
            out.push((key, p));
            i = i + 1;
        }
        let r = PropertyMap { entries: out };
        proof {
            assert(r.entries_view() =~= self.entries_view());
        }
        r
    }
}

} // verus!
