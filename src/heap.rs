//! The value heap: an arena that owns every runtime value.
//!
//! A handle (`Pointer`) is the index of a value in the arena. Array elements
//! live in a separate contiguous slot store; an array value records its length
//! and the offset of its first slot. Integer and boolean literals are interned,
//! and a single `Unit` value is shared by the whole run.
use std::collections::HashMap;
use vstd::prelude::*;

verus! {

broadcast use vstd::std_specs::hash::group_hash_axioms;

/// A handle to a value stored in a `Heap`.
#[derive(Clone, Copy, PartialEq, Eq, Structural, Debug)]
pub struct Pointer {
    pub index: usize,
}

/// A runtime value. Arrays refer to their elements through the slot store.
#[derive(Clone, Copy, PartialEq, Eq, Structural, Debug)]
pub enum Value {
    Int(i32),
    Boolean(bool),
    Unit,
    Array { size: i32, data: usize },
    Object,
}

/// The abstract state of a heap.
pub ghost struct HeapModel {
    pub values: Seq<Value>,
    pub slots: Seq<Pointer>,
    pub ints: Map<i32, Pointer>,
    pub bools: Map<bool, Pointer>,
    pub unit: Pointer,
}

impl HeapModel {
    pub open spec fn valid(self, p: Pointer) -> bool {
        p.index < self.values.len()
    }

    pub open spec fn deref(self, p: Pointer) -> Value {
        self.values[p.index as int]
    }

    /// An array value whose slots lie inside the slot store.
    pub open spec fn value_ok(self, v: Value) -> bool {
        match v {
            Value::Array { size, data } => 0 <= size && data + size <= self.slots.len(),
            _ => true,
        }
    }

    pub open spec fn wf(self) -> bool {
        &&& self.values.len() <= usize::MAX
        &&& self.slots.len() <= usize::MAX
        &&& self.valid(self.unit)
        &&& self.deref(self.unit) == Value::Unit
        &&& forall|n: i32| #[trigger]
            self.ints.contains_key(n) ==> self.valid(self.ints[n]) && self.deref(self.ints[n])
                == Value::Int(n)
        &&& forall|b: bool| #[trigger]
            self.bools.contains_key(b) ==> self.valid(self.bools[b]) && self.deref(self.bools[b])
                == Value::Boolean(b)
        &&& forall|i: int| 0 <= i < self.slots.len() ==> self.valid(#[trigger] self.slots[i])
        &&& forall|i: int| 0 <= i < self.values.len() ==> self.value_ok(#[trigger] self.values[i])
    }

    /// Stores `v` at the end of the arena; its handle is the next index.
    pub open spec fn allocate(self, v: Value) -> (HeapModel, Pointer) {
        (HeapModel { values: self.values.push(v), ..self }, Pointer { index: self.values.len() as usize })
    }

    pub open spec fn get_int(self, n: i32) -> (HeapModel, Pointer) {
        if self.ints.contains_key(n) {
            (self, self.ints[n])
        } else {
            let (h, p) = self.allocate(Value::Int(n));
            (HeapModel { ints: h.ints.insert(n, p), ..h }, p)
        }
    }

    pub open spec fn get_bool(self, b: bool) -> (HeapModel, Pointer) {
        if self.bools.contains_key(b) {
            (self, self.bools[b])
        } else {
            let (h, p) = self.allocate(Value::Boolean(b));
            (HeapModel { bools: h.bools.insert(b, p), ..h }, p)
        }
    }

    /// Appends `elems` to the slot store and allocates the array header.
    pub open spec fn alloc_array(self, elems: Seq<Pointer>) -> (HeapModel, Pointer) {
        let h = HeapModel { slots: self.slots + elems, ..self };
        h.allocate(Value::Array { size: elems.len() as i32, data: self.slots.len() as usize })
    }

    /// The handles held by the array `v` (an array value of this heap).
    pub open spec fn elements(self, v: Value) -> Seq<Pointer> {
        match v {
            Value::Array { size, data } => self.slots.subrange(data as int, data + size),
            _ => Seq::empty(),
        }
    }

    pub open spec fn set_slot(self, at: int, p: Pointer) -> HeapModel {
        HeapModel { slots: self.slots.update(at, p), ..self }
    }

    /// Everything that was stored stays where it was; slots may change.
    pub open spec fn extends(self, later: HeapModel) -> bool {
        &&& self.values.len() <= later.values.len()
        &&& forall|i: int| 0 <= i < self.values.len() ==> later.values[i] == #[trigger] self.values[i]
        &&& self.slots.len() <= later.slots.len()
        &&& later.unit == self.unit
    }
}

pub struct Heap {
    values: Vec<Value>,
    slots: Vec<Pointer>,
    int_literals: HashMap<i32, Pointer>,
    bool_literals: HashMap<bool, Pointer>,
    unit: Pointer,
}

impl View for Heap {
    type V = HeapModel;

    closed spec fn view(&self) -> HeapModel {
        HeapModel {
            values: self.values@,
            slots: self.slots@,
            ints: self.int_literals@,
            bools: self.bool_literals@,
            unit: self.unit,
        }
    }
}

impl Heap {
    /// An arena that holds only the shared `Unit` value.
    pub fn new() -> (r: Heap)
        ensures
            r@.wf(),
            r@.values == seq![Value::Unit],
            r@.slots == Seq::<Pointer>::empty(),
            r@.ints == Map::<i32, Pointer>::empty(),
            r@.bools == Map::<bool, Pointer>::empty(),
            r@.unit == (Pointer { index: 0 }),
    {
        let mut values: Vec<Value> = Vec::new();
        values.push(Value::Unit);
        Heap {
            values,
            slots: Vec::new(),
            int_literals: HashMap::new(),
            bool_literals: HashMap::new(),
            unit: Pointer { index: 0 },
        }
    }

    /// Stores a value and returns its fresh handle.
    pub fn allocate(&mut self, value: Value) -> (r: Pointer)
        requires
            old(self)@.wf(),
            old(self)@.value_ok(value),
        ensures
            (final(self)@, r) == old(self)@.allocate(value),
            final(self)@.wf(),
            final(self)@.ints == old(self)@.ints,
            final(self)@.bools == old(self)@.bools,
            final(self)@.valid(r),
            final(self)@.deref(r) == value,
            r.index == old(self)@.values.len(),
    {
        let r = Pointer { index: self.values.len() };
        self.values.push(value);
        proof {
            let h = self@;
            assert(self.values.len() == self.values@.len());
            assert(h.values[h.unit.index as int] == old(self)@.values[h.unit.index as int]);
            assert forall|i: int| 0 <= i < h.values.len() implies h.value_ok(#[trigger] h.values[i]) by {
                if i < old(self)@.values.len() {
                    assert(h.values[i] == old(self)@.values[i]);
                }
            }
            assert forall|n: i32| #[trigger] h.ints.contains_key(n) implies h.valid(h.ints[n])
                && h.deref(h.ints[n]) == Value::Int(n) by {
                assert(h.values[h.ints[n].index as int] == old(self)@.values[h.ints[n].index as int]);
            }
            assert forall|b: bool| #[trigger] h.bools.contains_key(b) implies h.valid(h.bools[b])
                && h.deref(h.bools[b]) == Value::Boolean(b) by {
                assert(h.values[h.bools[b].index as int] == old(self)@.values[h.bools[b].index as int]);
            }
        }
        r
    }

    pub fn deref(&self, ptr: Pointer) -> (r: &Value)
        requires
            self@.valid(ptr),
        ensures
            *r == self@.deref(ptr),
    {
        &self.values[ptr.index]
    }

    /// Returns the handle of the integer constant `val`, allocating it on
    /// first use.
    pub fn get_int(&mut self, val: i32) -> (r: Pointer)
        requires
            old(self)@.wf(),
        ensures
            (final(self)@, r) == old(self)@.get_int(val),
            final(self)@.wf(),
            final(self)@.deref(r) == Value::Int(val),
    {
        match self.int_literals.get(&val) {
            Some(ptr) => *ptr,
            None => {
                let int_ptr = self.allocate(Value::Int(val));
                let ghost h1 = self@;
                self.int_literals.insert(val, int_ptr);
                proof {
                    let h = self@;
                    assert(h1.deref(int_ptr) == Value::Int(val));
                    assert forall|k: i32| #[trigger] h.ints.contains_key(k) implies h.valid(h.ints[k])
                        && h.deref(h.ints[k]) == Value::Int(k) by {
                        if k != val {
                            assert(h1.ints.contains_key(k));
                        }
                    }
                }
                int_ptr
            },
        }
    }

    /// Returns the handle of the boolean constant `val`, allocating it on
    /// first use.
    pub fn get_bool(&mut self, val: bool) -> (r: Pointer)
        requires
            old(self)@.wf(),
        ensures
            (final(self)@, r) == old(self)@.get_bool(val),
            final(self)@.wf(),
            final(self)@.deref(r) == Value::Boolean(val),
    {
        match self.bool_literals.get(&val) {
            Some(ptr) => *ptr,
            None => {
                let bool_ptr = self.allocate(Value::Boolean(val));
                let ghost h1 = self@;
                self.bool_literals.insert(val, bool_ptr);
                proof {
                    let h = self@;
                    assert(h1.deref(bool_ptr) == Value::Boolean(val));
                    assert forall|k: bool| #[trigger] h.bools.contains_key(k) implies h.valid(h.bools[k])
                        && h.deref(h.bools[k]) == Value::Boolean(k) by {
                        if k != val {
                            assert(h1.bools.contains_key(k));
                        }
                    }
                }
                bool_ptr
            },
        }
    }

    pub fn get_unit(&self) -> (r: Pointer)
        ensures
            r == self@.unit,
    {
        self.unit
    }

    /// Copies `init_vec` into fresh contiguous slots and allocates an array
    /// of length `size` over them.
    pub fn alloc_array(&mut self, size: i32, init_vec: Vec<Pointer>) -> (r: Pointer)
        requires
            old(self)@.wf(),
            size as int == init_vec@.len(),
            forall|i: int| 0 <= i < init_vec@.len() ==> old(self)@.valid(#[trigger] init_vec@[i]),
        ensures
            (final(self)@, r) == old(self)@.alloc_array(init_vec@),
            final(self)@.wf(),
            final(self)@.ints == old(self)@.ints,
            final(self)@.bools == old(self)@.bools,
    {
        let data = self.slots.len();
        let ghost h0 = self@;
        let mut i: usize = 0;
        while i < init_vec.len()
            invariant
                0 <= i <= init_vec@.len(),
                h0.wf(),
                size as int == init_vec@.len(),
                forall|j: int| 0 <= j < init_vec@.len() ==> h0.valid(#[trigger] init_vec@[j]),
                data == h0.slots.len(),
                self@ == (HeapModel { slots: h0.slots + init_vec@.subrange(0, i as int), ..h0 }),
            decreases init_vec@.len() - i,
        {
            self.slots.push(init_vec[i]);
            proof {
                assert(init_vec@.subrange(0, i + 1) =~= init_vec@.subrange(0, i as int).push(init_vec@[i as int]));
            }
            i = i + 1;
        }
        proof {
            assert(init_vec@.subrange(0, i as int) =~= init_vec@);
            let h = self@;
            assert forall|k: int| 0 <= k < h.slots.len() implies h.valid(#[trigger] h.slots[k]) by {
                if k >= h0.slots.len() {
                    assert(h.slots[k] == init_vec@[k - h0.slots.len()]);
                }
            }
            assert forall|k: int| 0 <= k < h.values.len() implies h.value_ok(#[trigger] h.values[k]) by {
                assert(h0.value_ok(h0.values[k]));
            }
        }
        proof {
            assert(self.slots.len() == self.slots@.len());
        }
        self.allocate(Value::Array { size, data })
    }

    /// Overwrites the slot `index` of the array whose storage starts at `data`.
    pub fn assign_array(&mut self, data: usize, index: i32, ptr: Pointer)
        requires
            old(self)@.wf(),
            0 <= index,
            data + index < old(self)@.slots.len(),
            old(self)@.valid(ptr),
        ensures
            final(self)@ == old(self)@.set_slot(data + index, ptr),
            final(self)@.wf(),
            final(self)@.ints == old(self)@.ints,
            final(self)@.bools == old(self)@.bools,
    {
        let n = self.slots.len();
        let at: usize = data + index as usize;
        self.slots.set(at, ptr);
        proof {
            let h = self@;
            assert forall|k: int| 0 <= k < h.slots.len() implies h.valid(#[trigger] h.slots[k]) by {
                if k != at {
                    assert(h.slots[k] == old(self)@.slots[k]);
                }
            }
            assert forall|k: int| 0 <= k < h.values.len() implies h.value_ok(#[trigger] h.values[k]) by {
                assert(old(self)@.value_ok(old(self)@.values[k]));
            }
        }
    }

    /// Reads the slot `index` of the array whose storage starts at `data`.
    pub fn access_array(&self, data: usize, index: i32) -> (r: Pointer)
        requires
            0 <= index,
            data + index < self@.slots.len(),
        ensures
            r == self@.slots[data + index],
    {
        let n = self.slots.len();
        self.slots[data + index as usize]
    }
}

} // verus!
