//! The dense backing store of an array object.
//!
//! An array keeps its indexed slots as an ordered sequence of property
//! descriptors. Its observable `length` is always exactly the slot count:
//! growing pads with data descriptors holding the internal `Empty` marker
//! (read back as `undefined`), and shrinking truncates the sequence.

use crate::object::DataProperty;
use crate::object::Property2;
use crate::object::PropertyV;
use crate::object::data_prop_v;
use crate::value::Sentinel;
use crate::value::Value2;
use crate::value::ValueV;
use vstd::prelude::*;

verus! {

/// The indexed slots of an array object.
pub struct ArrayObjectInfo {
    pub elems: Vec<Property2>,
}

impl View for ArrayObjectInfo {
    type V = Seq<PropertyV>;

    open spec fn view(&self) -> Seq<PropertyV> {
        self.elems@.map_values(|p: Property2| p@)
    }
}

/// `Empty` read back as `undefined`; anything else passes through.
pub open spec fn undef_if_empty(v: ValueV) -> ValueV {
    if v == ValueV::Other(Sentinel::Empty) {
        ValueV::Other(Sentinel::Undefined)
    } else {
        v
    }
}

/// What reading slot `idx` yields: a fresh `undefined` data descriptor past
/// the end; otherwise the stored descriptor, with an `Empty` data value
/// read back as `undefined`.
pub open spec fn spec_get_element(elems: Seq<PropertyV>, idx: int) -> PropertyV {
    if idx < 0 || idx >= elems.len() {
        data_prop_v(ValueV::Other(Sentinel::Undefined))
    } else {
        match elems[idx] {
            PropertyV::Data { val, writable, enumerable, configurable } => PropertyV::Data {
                val: undef_if_empty(val),
                writable,
                enumerable,
                configurable,
            },
            acc => acc,
        }
    }
}

/// The slots after the length is set to `n`: truncated when shrinking,
/// padded with writable `Empty` data descriptors when growing.
pub open spec fn spec_set_length(elems: Seq<PropertyV>, n: int) -> Seq<PropertyV> {
    if n <= elems.len() {
        elems.take(n)
    } else {
        elems + Seq::new((n - elems.len()) as nat, |i: int| data_prop_v(ValueV::Other(Sentinel::Empty)))
    }
}

/// The slots after writing `val` at `idx`, and the setter the caller must
/// invoke instead where the slot is an accessor: writing past the end first
/// grows the array to `idx + 1`; a data slot takes the value in place,
/// keeping its flags; an accessor slot is left unchanged and its setter is
/// handed back unless it is absent.
pub open spec fn spec_set_element(elems: Seq<PropertyV>, idx: int, val: ValueV) -> (
    Seq<PropertyV>,
    Option<ValueV>,
) {
    let padded = if idx >= elems.len() {
        spec_set_length(elems, idx + 1)
    } else {
        elems
    };
    match padded[idx] {
        PropertyV::Data { val: _, writable, enumerable, configurable } => (
            padded.update(idx, PropertyV::Data { val, writable, enumerable, configurable }),
            None,
        ),
        PropertyV::Accessor { get: _, set, .. } => (
            padded,
            if set == ValueV::Other(Sentinel::Undefined) {
                None
            } else {
                Some(set)
            },
        ),
    }
}

impl ArrayObjectInfo {
    /// An empty array.
    pub fn new_empty() -> (r: ArrayObjectInfo)
        ensures
            r@ == Seq::<PropertyV>::empty(),
    {
        let r = ArrayObjectInfo { elems: Vec::new() };
        proof {
            assert(r@ =~= Seq::<PropertyV>::empty());
        }
        r
    }

    /// Reads slot `idx` as [`spec_get_element`] says. A read never observes
    /// the internal `Empty` marker.
    pub fn get_element(&self, idx: usize) -> (r: Property2)
        ensures
            r@ == spec_get_element(self@, idx as int),
    {
        if idx >= self.elems.len() {
            return Property2::new_data_simple(Value2::undefined());
        }
        match &self.elems[idx] {
            Property2::Data(d) => Property2::Data(
                DataProperty {
                    val: d.val.clone().to_undefined_if_empty(),
                    writable: d.writable,
                    enumerable: d.enumerable,
                    configurable: d.configurable,
                },
            ),
            acc => acc.clone_prop(),
        }
    }

    /// Sets the observable length, truncating or padding the slots so that
    /// `length == elems.len()` stays true.
    pub fn set_length(&mut self, len: usize)
        ensures
            final(self)@ == spec_set_length(old(self)@, len as int),
            final(self)@.len() == len,
    {
        let ghost orig = self@;
        if self.elems.len() < len {
            while self.elems.len() < len
                invariant
                    orig.len() <= self@.len() <= len,
                    self@ == spec_set_length(orig, self@.len() as int),
                decreases len - self.elems@.len(),
            {
                let ghost pre = self@;
                self.elems.push(
                    Property2::Data(
                        DataProperty {
                            val: Value2::Other(Sentinel::Empty),
                            writable: true,
                            enumerable: true,
                            configurable: true,
                        },
                    ),
                );
                proof {
                    assert(self@ =~= pre.push(data_prop_v(ValueV::Other(Sentinel::Empty))));
                    assert(self@ =~= spec_set_length(orig, self@.len() as int));
                }
            }
        } else {
            self.elems.truncate(len);
            proof {
                assert(self@ =~= orig.take(len as int));
            }
        }
    }

    /// Writes `val` at `idx` as [`spec_set_element`] says, growing the
    /// array first when `idx` is past the end. Where the slot is an
    /// accessor, the stored slots do not change and the setter to invoke is
    /// returned.
    pub fn set_element(&mut self, idx: usize, val: Value2) -> (r: Option<Value2>)
        requires
            idx < usize::MAX,
        ensures
            final(self)@ == spec_set_element(old(self)@, idx as int, val@).0,
            match r {
                Some(s) => Some(s@) == spec_set_element(old(self)@, idx as int, val@).1,
                None => spec_set_element(old(self)@, idx as int, val@).1 is None,
            },
    {
        if idx >= self.elems.len() {
            self.set_length(idx + 1);
        }
        let ghost padded = self@;
        match &self.elems[idx] {
            Property2::Data(d) => {
                let p = Property2::Data(
                    DataProperty {
                        val,
                        writable: d.writable,
                        enumerable: d.enumerable,
                        configurable: d.configurable,
                    },
                );
                self.elems[idx] = p;
                proof {
                    assert(self@ =~= padded.update(idx as int, p@));
                }
                None
            },
            Property2::Accessor(a) => {
                if a.set.is_undefined() {
                    None
                } else {
                    Some(a.set.clone())
                }
            },
        }
    }
}

} // verus!
