//! The native-side wrapper of a host value.
//!
//! A wrapper carries a number and a flag. With the flag down the number is
//! the value itself, a primitive, and the host's object table is never asked.
//! With the flag up the number is a handle into that table, and the wrapper
//! is one owner of the slot: its copies share a counter, and the owner that is
//! destroyed last has the slot released.
//!
//! Nothing here talks to the host. Where a value lives on the host, a function
//! hands back the call to make.
use crate::boundary::{is_safe, BoundaryCall, MAX_SAFE_INTEGER};
use crate::ownership::releases;
use crate::Bridge;
use std::rc::Rc;
use vstd::prelude::*;

verus! {

/// How native code gets at a wrapper's value.
#[derive(Debug, PartialEq, Eq)]
pub enum Answer<T> {
    /// The wrapper holds a primitive: here it is, and the host is not asked.
    Local(T),
    /// The wrapper holds a handle: this call has the host load and coerce the value.
    Remote(BoundaryCall),
}

/// A native-side reference to a host value, or a primitive on its way to the host.
#[derive(Debug)]
pub struct JSObject {
    value: i64,
    jshandle: bool,
    refcount: Rc<()>,
}

/// `v` where it lies between `lo` and `hi`, else the nearer of the two.
pub open spec fn saturated(v: int, lo: int, hi: int) -> int {
    if v < lo {
        lo
    } else if v > hi {
        hi
    } else {
        v
    }
}

/// The number that stands for a boolean on the wire.
pub open spec fn bool_number(b: bool) -> int {
    if b {
        1
    } else {
        0
    }
}

/// The number of wrappers that share the counter `counter`.
///
/// Calls `Rc::strong_count`. The count depends on what the other owners have
/// done, so all that is claimed of it is that the one asking is counted.
#[verifier::external_body]
fn owners(counter: &Rc<()>) -> (n: usize)
    ensures
        n >= 1,
{
    Rc::strong_count(counter)
}

/// `v` brought into the range from `lo` to `hi`.
fn clamped(v: i64, lo: i64, hi: i64) -> (r: i64)
    requires
        lo <= hi,
    ensures
        r == saturated(v as int, lo as int, hi as int),
{
    if v < lo {
        lo
    } else if v > hi {
        hi
    } else {
        v
    }
}

impl JSObject {
    /// The number can cross the boundary unchanged, and a handle is a table index.
    #[verifier::type_invariant]
    spec fn valid(self) -> bool {
        is_safe(self.value as int) && (self.jshandle ==> 0 <= self.value <= u32::MAX)
    }

    /// The number that the wrapper carries.
    pub closed spec fn payload(&self) -> int {
        self.value as int
    }

    /// The wrapper's number is a handle into the host's object table.
    pub closed spec fn holds_handle(&self) -> bool {
        self.jshandle
    }

    /// The wrapper of the primitive `v`.
    pub closed spec fn primitive(v: int) -> JSObject {
        JSObject { value: v as i64, jshandle: false, refcount: vstd::pervasive::arbitrary() }
    }

    /// A wrapper that owns the table slot `handle`.
    pub closed spec fn owning(handle: u32) -> JSObject {
        JSObject { value: handle as i64, jshandle: true, refcount: vstd::pervasive::arbitrary() }
    }

    /// What the wrappers that the constructors give carry: a primitive its
    /// number with the flag down, an owner its handle with the flag up.
    pub proof fn lemma_constructed()
        ensures
            forall|v: int| is_safe(v) ==> #[trigger] JSObject::primitive(v).payload() == v,
            forall|v: int| !(#[trigger] JSObject::primitive(v)).holds_handle(),
            forall|h: u32| #[trigger] JSObject::owning(h).payload() == h,
            forall|h: u32| (#[trigger] JSObject::owning(h)).holds_handle(),
    {
    }

    /// The wrapper of the primitive `v`, with a counter of its own.
    fn of_number(v: i64) -> (r: JSObject)
        requires
            is_safe(v as int),
        ensures
            r == JSObject::primitive(v as int),
    {
        JSObject { value: v, jshandle: false, refcount: Rc::new(()) }
    }

    /// Wraps the handle that a storing call returned. The wrapper is the
    /// slot's first owner, with a counter of its own.
    ///
    /// There is no slot before the host is set up, so without a ready
    /// `bridge` there is no wrapper. Every call that names a handle takes it
    /// from a wrapper, so none of them can come before the setup.
    pub fn from_handle(bridge: &Bridge, handle: u32) -> (r: Option<JSObject>)
        ensures
            r == (if bridge.ready() {
                Some(JSObject::owning(handle))
            } else {
                None
            }),
    {
        if bridge.is_ready() {
            Some(JSObject { value: handle as i64, jshandle: true, refcount: Rc::new(()) })
        } else {
            None
        }
    }

    /// The wrapper of the primitive `v`, or `None` where a double cannot hold `v` exactly.
    pub fn from_usize(v: usize) -> (r: Option<JSObject>)
        ensures
            r == (if v <= MAX_SAFE_INTEGER {
                Some(JSObject::primitive(v as int))
            } else {
                None
            }),
    {
        if v as u64 <= MAX_SAFE_INTEGER as u64 {
            Some(JSObject::of_number(v as i64))
        } else {
            None
        }
    }

    /// The wrapper of the primitive `v`, or `None` where a double cannot hold `v` exactly.
    pub fn from_isize(v: isize) -> (r: Option<JSObject>)
        ensures
            r == (if is_safe(v as int) {
                Some(JSObject::primitive(v as int))
            } else {
                None
            }),
    {
        if -MAX_SAFE_INTEGER <= v as i64 && v as i64 <= MAX_SAFE_INTEGER {
            Some(JSObject::of_number(v as i64))
        } else {
            None
        }
    }

    /// Tells whether the wrapper holds a handle.
    pub fn is_handle(&self) -> (r: bool)
        ensures
            r == self.holds_handle(),
    {
        self.jshandle
    }

    /// The call that loads the number at the wrapper's handle.
    pub open spec fn load_number(&self) -> BoundaryCall {
        BoundaryCall::LoadNumber { handle: self.payload() as u32 }
    }

    /// What `to_bool` gives: a primitive is true unless it is zero.
    pub open spec fn as_bool(&self) -> Answer<bool> {
        if self.holds_handle() {
            Answer::Remote(BoundaryCall::LoadBoolean { handle: self.payload() as u32 })
        } else {
            Answer::Local(self.payload() != 0)
        }
    }

    /// The wrapper's value as a boolean.
    pub fn to_bool(&self) -> (r: Answer<bool>)
        ensures
            r == self.as_bool(),
    {
        proof {
            use_type_invariant(self);
        }
        if self.jshandle {
            Answer::Remote(BoundaryCall::LoadBoolean { handle: self.value as u32 })
        } else {
            Answer::Local(self.value != 0)
        }
    }

    /// What `to_i32` gives: a primitive is read saturating, as a cast from a double does.
    pub open spec fn as_i32(&self) -> Answer<i32> {
        if self.holds_handle() {
            Answer::Remote(self.load_number())
        } else {
            Answer::Local(saturated(self.payload(), i32::MIN as int, i32::MAX as int) as i32)
        }
    }

    /// The wrapper's value as an `i32`.
    pub fn to_i32(&self) -> (r: Answer<i32>)
        ensures
            r == self.as_i32(),
    {
        proof {
            use_type_invariant(self);
        }
        if self.jshandle {
            Answer::Remote(BoundaryCall::LoadNumber { handle: self.value as u32 })
        } else {
            Answer::Local(clamped(self.value, i32::MIN as i64, i32::MAX as i64) as i32)
        }
    }

    /// What `to_u32` gives: a primitive is read saturating, as a cast from a double does.
    pub open spec fn as_u32(&self) -> Answer<u32> {
        if self.holds_handle() {
            Answer::Remote(self.load_number())
        } else {
            Answer::Local(saturated(self.payload(), u32::MIN as int, u32::MAX as int) as u32)
        }
    }

    /// The wrapper's value as a `u32`.
    pub fn to_u32(&self) -> (r: Answer<u32>)
        ensures
            r == self.as_u32(),
    {
        proof {
            use_type_invariant(self);
        }
        if self.jshandle {
            Answer::Remote(BoundaryCall::LoadNumber { handle: self.value as u32 })
        } else {
            Answer::Local(clamped(self.value, u32::MIN as i64, u32::MAX as i64) as u32)
        }
    }

    /// What `to_i16` gives: a primitive is read saturating, as a cast from a double does.
    pub open spec fn as_i16(&self) -> Answer<i16> {
        if self.holds_handle() {
            Answer::Remote(self.load_number())
        } else {
            Answer::Local(saturated(self.payload(), i16::MIN as int, i16::MAX as int) as i16)
        }
    }

    /// The wrapper's value as an `i16`.
    pub fn to_i16(&self) -> (r: Answer<i16>)
        ensures
            r == self.as_i16(),
    {
        proof {
            use_type_invariant(self);
        }
        if self.jshandle {
            Answer::Remote(BoundaryCall::LoadNumber { handle: self.value as u32 })
        } else {
            Answer::Local(clamped(self.value, i16::MIN as i64, i16::MAX as i64) as i16)
        }
    }

    /// What `to_u16` gives: a primitive is read saturating, as a cast from a double does.
    pub open spec fn as_u16(&self) -> Answer<u16> {
        if self.holds_handle() {
            Answer::Remote(self.load_number())
        } else {
            Answer::Local(saturated(self.payload(), u16::MIN as int, u16::MAX as int) as u16)
        }
    }

    /// The wrapper's value as a `u16`.
    pub fn to_u16(&self) -> (r: Answer<u16>)
        ensures
            r == self.as_u16(),
    {
        proof {
            use_type_invariant(self);
        }
        if self.jshandle {
            Answer::Remote(BoundaryCall::LoadNumber { handle: self.value as u32 })
        } else {
            Answer::Local(clamped(self.value, u16::MIN as i64, u16::MAX as i64) as u16)
        }
    }

    /// What `to_i8` gives: a primitive is read saturating, as a cast from a double does.
    pub open spec fn as_i8(&self) -> Answer<i8> {
        if self.holds_handle() {
            Answer::Remote(self.load_number())
        } else {
            Answer::Local(saturated(self.payload(), i8::MIN as int, i8::MAX as int) as i8)
        }
    }

    /// The wrapper's value as an `i8`.
    pub fn to_i8(&self) -> (r: Answer<i8>)
        ensures
            r == self.as_i8(),
    {
        proof {
            use_type_invariant(self);
        }
        if self.jshandle {
            Answer::Remote(BoundaryCall::LoadNumber { handle: self.value as u32 })
        } else {
            Answer::Local(clamped(self.value, i8::MIN as i64, i8::MAX as i64) as i8)
        }
    }

    /// What `to_u8` gives: a primitive is read saturating, as a cast from a double does.
    pub open spec fn as_u8(&self) -> Answer<u8> {
        if self.holds_handle() {
            Answer::Remote(self.load_number())
        } else {
            Answer::Local(saturated(self.payload(), u8::MIN as int, u8::MAX as int) as u8)
        }
    }

    /// The wrapper's value as a `u8`.
    pub fn to_u8(&self) -> (r: Answer<u8>)
        ensures
            r == self.as_u8(),
    {
        proof {
            use_type_invariant(self);
        }
        if self.jshandle {
            Answer::Remote(BoundaryCall::LoadNumber { handle: self.value as u32 })
        } else {
            Answer::Local(clamped(self.value, u8::MIN as i64, u8::MAX as i64) as u8)
        }
    }

    /// What `to_isize` gives: a primitive is read saturating, as a cast from a double does.
    pub open spec fn as_isize(&self) -> Answer<isize> {
        if self.holds_handle() {
            Answer::Remote(self.load_number())
        } else {
            Answer::Local(saturated(self.payload(), isize::MIN as int, isize::MAX as int) as isize)
        }
    }

    /// The wrapper's value as an `isize`.
    pub fn to_isize(&self) -> (r: Answer<isize>)
        ensures
            r == self.as_isize(),
    {
        proof {
            use_type_invariant(self);
        }
        if self.jshandle {
            Answer::Remote(BoundaryCall::LoadNumber { handle: self.value as u32 })
        } else {
            Answer::Local(clamped(self.value, isize::MIN as i64, isize::MAX as i64) as isize)
        }
    }

    /// What `to_usize` gives: a primitive is read saturating, as a cast from a double does.
    pub open spec fn as_usize(&self) -> Answer<usize> {
        if self.holds_handle() {
            Answer::Remote(self.load_number())
        } else {
            Answer::Local(saturated(self.payload(), usize::MIN as int, usize::MAX as int) as usize)
        }
    }

    /// The wrapper's value as a `usize`.
    pub fn to_usize(&self) -> (r: Answer<usize>)
        ensures
            r == self.as_usize(),
    {
        proof {
            use_type_invariant(self);
        }
        if self.jshandle {
            Answer::Remote(BoundaryCall::LoadNumber { handle: self.value as u32 })
        } else {
            if self.value < 0 {
                Answer::Local(0)
            } else if self.value as u64 > usize::MAX as u64 {
                Answer::Local(usize::MAX)
            } else {
                Answer::Local(self.value as usize)
            }
        }
    }

    /// The call that copies the host string at the wrapper's handle into a
    /// fresh transfer buffer. A primitive names no host value, so it gives none.
    pub fn string_request(&self) -> (r: Option<BoundaryCall>)
        ensures
            r == (if self.holds_handle() {
                Some(BoundaryCall::FetchString { handle: self.payload() as u32 })
            } else {
                None
            }),
    {
        proof {
            use_type_invariant(self);
        }
        if self.jshandle {
            Some(BoundaryCall::FetchString { handle: self.value as u32 })
        } else {
            None
        }
    }

    /// A second owner of the same slot: the copy shares this wrapper's
    /// counter. The table is not touched.
    pub fn duplicate(&self) -> (r: JSObject)
        ensures
            r == *self,
    {
        proof {
            use_type_invariant(self);
        }
        JSObject { value: self.value, jshandle: self.jshandle, refcount: self.refcount.clone() }
    }

    /// What destroying this wrapper asks of the host, where `owners` wrappers
    /// share its counter, this one counted: the release of its slot where it
    /// holds a handle and is the last owner, and nothing otherwise.
    pub fn on_destroy(&self, owners: usize) -> (r: Option<BoundaryCall>)
        ensures
            r == (if releases(self.holds_handle(), owners as int) {
                Some(BoundaryCall::Release { handle: self.payload() as u32 })
            } else {
                None
            }),
    {
        proof {
            use_type_invariant(self);
        }
        if self.jshandle && owners == 1 {
            Some(BoundaryCall::Release { handle: self.value as u32 })
        } else {
            None
        }
    }

    /// Destroys the wrapper and hands back what that asks of the host.
    ///
    /// A primitive never asks for anything. A wrapper that holds a handle asks
    /// for the release of its slot, and for nothing else, where no other owner
    /// is left; how many are left is known to the shared counter alone.
    pub fn destroy(self) -> (r: Option<BoundaryCall>)
        ensures
            !self.holds_handle() ==> r is None,
            r matches Some(call) ==> call == (BoundaryCall::Release {
                handle: self.payload() as u32,
            }),
    {
        let count: usize = owners(&self.refcount);
        self.on_destroy(count)
    }

    /// The call that stores a fresh empty array, whose handle `from_handle`
    /// wraps, or `None` where the host is not set up.
    pub fn array_begin(bridge: &Bridge) -> (r: Option<BoundaryCall>)
        ensures
            r == (if bridge.ready() {
                Some(BoundaryCall::NewArray)
            } else {
                None
            }),
    {
        if bridge.is_ready() {
            Some(BoundaryCall::NewArray)
        } else {
            None
        }
    }

    /// The call that appends `element` to the host array at `array`: the
    /// number itself for a primitive, the host value at its handle otherwise.
    pub open spec fn push_of(array: u32, element: JSObject) -> BoundaryCall {
        if element.holds_handle() {
            BoundaryCall::PushObject { array, element: element.payload() as u32 }
        } else {
            BoundaryCall::PushValue { array, value: element.payload() as i64 }
        }
    }

    /// The call that appends `element` to the host array that this wrapper
    /// owns, or `None` where this wrapper holds no handle.
    pub fn array_push(&self, element: &JSObject) -> (r: Option<BoundaryCall>)
        ensures
            r == (if self.holds_handle() {
                Some(JSObject::push_of(self.payload() as u32, *element))
            } else {
                None
            }),
            r matches Some(call) ==> call.well_formed(),
    {
        proof {
            use_type_invariant(self);
            use_type_invariant(element);
        }
        if !self.jshandle {
            None
        } else if element.jshandle {
            Some(BoundaryCall::PushObject { array: self.value as u32, element: element.value as u32 })
        } else {
            Some(BoundaryCall::PushValue { array: self.value as u32, value: element.value })
        }
    }

    /// The calls that fill the host array that this wrapper owns with
    /// `elements`: one append for each element, in the order of `elements`.
    /// `None` where this wrapper holds no handle.
    pub fn array_fill(&self, elements: &Vec<JSObject>) -> (r: Option<Vec<BoundaryCall>>)
        ensures
            self.holds_handle() <==> r is Some,
            r matches Some(calls) ==> calls@ == Seq::new(
                elements.len() as nat,
                |i: int| JSObject::push_of(self.payload() as u32, elements[i]),
            ),
    {
        if !self.jshandle {
            return None;
        }
        let mut calls: Vec<BoundaryCall> = Vec::new();
        let mut i: usize = 0;
        while i < elements.len()
            invariant
                i <= elements.len(),
                self.holds_handle(),
                calls@ == Seq::new(
                    i as nat,
                    |k: int| JSObject::push_of(self.payload() as u32, elements[k]),
                ),
            decreases elements.len() - i,
        {
            match self.array_push(&elements[i]) {
                Some(call) => {
                    calls.push(call);
                },
                None => {},
            }
            i += 1;
        }
        Some(calls)
    }
}

impl Clone for JSObject {
    /// A second owner of the same slot, as `duplicate` gives.
    fn clone(&self) -> (r: JSObject)
        ensures
            r == *self,
    {
        self.duplicate()
    }
}

impl From<bool> for JSObject {
    /// The wrapper of the boolean `b`, which is carried as one or zero. No call is made.
    fn from(b: bool) -> (r: JSObject) {
        JSObject::of_number(if b { 1 } else { 0 })
    }
}

impl vstd::std_specs::convert::FromSpecImpl<bool> for JSObject {
    open spec fn obeys_from_spec() -> bool {
        true
    }

    open spec fn from_spec(b: bool) -> JSObject {
        JSObject::primitive(bool_number(b))
    }
}

impl From<i32> for JSObject {
    /// The wrapper of the primitive `v`. No call is made.
    fn from(v: i32) -> (r: JSObject) {
        JSObject::of_number(v as i64)
    }
}

impl vstd::std_specs::convert::FromSpecImpl<i32> for JSObject {
    open spec fn obeys_from_spec() -> bool {
        true
    }

    open spec fn from_spec(v: i32) -> JSObject {
        JSObject::primitive(v as int)
    }
}

impl From<u32> for JSObject {
    /// The wrapper of the primitive `v`. No call is made.
    fn from(v: u32) -> (r: JSObject) {
        JSObject::of_number(v as i64)
    }
}

impl vstd::std_specs::convert::FromSpecImpl<u32> for JSObject {
    open spec fn obeys_from_spec() -> bool {
        true
    }

    open spec fn from_spec(v: u32) -> JSObject {
        JSObject::primitive(v as int)
    }
}

impl From<i16> for JSObject {
    /// The wrapper of the primitive `v`. No call is made.
    fn from(v: i16) -> (r: JSObject) {
        JSObject::of_number(v as i64)
    }
}

impl vstd::std_specs::convert::FromSpecImpl<i16> for JSObject {
    open spec fn obeys_from_spec() -> bool {
        true
    }

    open spec fn from_spec(v: i16) -> JSObject {
        JSObject::primitive(v as int)
    }
}

impl From<u16> for JSObject {
    /// The wrapper of the primitive `v`. No call is made.
    fn from(v: u16) -> (r: JSObject) {
        JSObject::of_number(v as i64)
    }
}

impl vstd::std_specs::convert::FromSpecImpl<u16> for JSObject {
    open spec fn obeys_from_spec() -> bool {
        true
    }

    open spec fn from_spec(v: u16) -> JSObject {
        JSObject::primitive(v as int)
    }
}

impl From<i8> for JSObject {
    /// The wrapper of the primitive `v`. No call is made.
    fn from(v: i8) -> (r: JSObject) {
        JSObject::of_number(v as i64)
    }
}

impl vstd::std_specs::convert::FromSpecImpl<i8> for JSObject {
    open spec fn obeys_from_spec() -> bool {
        true
    }

    open spec fn from_spec(v: i8) -> JSObject {
        JSObject::primitive(v as int)
    }
}

impl From<u8> for JSObject {
    /// The wrapper of the primitive `v`. No call is made.
    fn from(v: u8) -> (r: JSObject) {
        JSObject::of_number(v as i64)
    }
}

impl vstd::std_specs::convert::FromSpecImpl<u8> for JSObject {
    open spec fn obeys_from_spec() -> bool {
        true
    }

    open spec fn from_spec(v: u8) -> JSObject {
        JSObject::primitive(v as int)
    }
}

/// A boolean that is wrapped and read again is the same boolean, and the host is not asked.
pub proof fn lemma_round_trip_bool(b: bool)
    ensures
        JSObject::primitive(bool_number(b)).as_bool() == Answer::Local(b),
        <JSObject as vstd::std_specs::convert::FromSpec<bool>>::from_spec(b).as_bool()
            == Answer::Local(b),
{
}

/// An `i32` that is wrapped and read again is the same number, and the host is not asked.
pub proof fn lemma_round_trip_i32(v: i32)
    ensures
        JSObject::primitive(v as int).as_i32() == Answer::Local(v),
        <JSObject as vstd::std_specs::convert::FromSpec<i32>>::from_spec(v).as_i32()
            == Answer::Local(v),
{
}

/// A `u32` that is wrapped and read again is the same number, and the host is not asked.
pub proof fn lemma_round_trip_u32(v: u32)
    ensures
        JSObject::primitive(v as int).as_u32() == Answer::Local(v),
        <JSObject as vstd::std_specs::convert::FromSpec<u32>>::from_spec(v).as_u32()
            == Answer::Local(v),
{
}

/// An `i16` that is wrapped and read again is the same number, and the host is not asked.
pub proof fn lemma_round_trip_i16(v: i16)
    ensures
        JSObject::primitive(v as int).as_i16() == Answer::Local(v),
        <JSObject as vstd::std_specs::convert::FromSpec<i16>>::from_spec(v).as_i16()
            == Answer::Local(v),
{
}

/// A `u16` that is wrapped and read again is the same number, and the host is not asked.
pub proof fn lemma_round_trip_u16(v: u16)
    ensures
        JSObject::primitive(v as int).as_u16() == Answer::Local(v),
        <JSObject as vstd::std_specs::convert::FromSpec<u16>>::from_spec(v).as_u16()
            == Answer::Local(v),
{
}

/// An `i8` that is wrapped and read again is the same number, and the host is not asked.
pub proof fn lemma_round_trip_i8(v: i8)
    ensures
        JSObject::primitive(v as int).as_i8() == Answer::Local(v),
        <JSObject as vstd::std_specs::convert::FromSpec<i8>>::from_spec(v).as_i8()
            == Answer::Local(v),
{
}

/// A `u8` that is wrapped and read again is the same number, and the host is not asked.
pub proof fn lemma_round_trip_u8(v: u8)
    ensures
        JSObject::primitive(v as int).as_u8() == Answer::Local(v),
        <JSObject as vstd::std_specs::convert::FromSpec<u8>>::from_spec(v).as_u8()
            == Answer::Local(v),
{
}

/// An `isize` that can be wrapped, which is one that a double holds exactly,
/// is the same number when it is read again, and the host is not asked.
pub proof fn lemma_round_trip_isize(v: isize)
    ensures
        is_safe(v as int) ==> JSObject::primitive(v as int).as_isize() == Answer::Local(v),
{
}

/// A `usize` that can be wrapped, which is one that a double holds exactly,
/// is the same number when it is read again, and the host is not asked.
pub proof fn lemma_round_trip_usize(v: usize)
    ensures
        is_safe(v as int) ==> JSObject::primitive(v as int).as_usize() == Answer::Local(v),
{
}

} // verus!
