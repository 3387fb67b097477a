//! Handles: the numbers by which a process names kernel objects, and the
//! typed wrappers around them.
//!
//! The types here hold the raw values and convert between them. They make no
//! system call: whoever talks to the kernel closes, duplicates and replaces
//! handles, and hands the numbers in and out.

use vstd::prelude::*;
use std::marker::PhantomData;
use std::mem::ManuallyDrop;
use crate::sys::{
    zx_handle_t, zx_info_handle_basic_t, zx_koid_t, zx_status_t, ZX_ERR_INTERNAL,
    ZX_ERR_INVALID_ARGS, ZX_HANDLE_INVALID, ZX_MAX_NAME_LEN,
};

verus! {

/// The status that a system call reports.
#[derive(Debug, Copy, Clone, Eq, PartialEq, Structural)]
pub struct Status(pub zx_status_t);

/// The kernel's own, process-independent name of an object.
#[derive(Debug, Copy, Clone, Eq, PartialEq, Ord, PartialOrd, Hash, Structural)]
pub struct Koid(pub zx_koid_t);

impl Koid {
    pub fn from_raw(raw: zx_koid_t) -> (k: Koid)
        ensures
            k.0 == raw,
    {
        Koid(raw)
    }

    pub fn raw_koid(&self) -> (raw: zx_koid_t)
        ensures
            raw == self.0,
    {
        self.0
    }
}

/// A handle: the number by which this process names a kernel object.
#[derive(Debug, Eq, PartialEq, Hash)]
pub struct Handle(zx_handle_t);

impl View for Handle {
    type V = zx_handle_t;

    closed spec fn view(&self) -> zx_handle_t {
        self.0
    }
}

impl Handle {
    /// The handle that names no object.
    pub fn invalid() -> (h: Handle)
        ensures
            h@ == ZX_HANDLE_INVALID,
    {
        Handle(ZX_HANDLE_INVALID)
    }

    /// The handle with the given raw value.
    pub fn from_raw(raw: zx_handle_t) -> (h: Handle)
        ensures
            h@ == raw,
    {
        Handle(raw)
    }

    /// Whether this is the handle that names no object.
    pub fn is_invalid(&self) -> (b: bool)
        ensures
            b == (self@ == ZX_HANDLE_INVALID),
    {
        self.0 == ZX_HANDLE_INVALID
    }

    /// Gives up the handle for its raw value.
    pub fn into_raw(self) -> (raw: zx_handle_t)
        ensures
            raw == self@,
    {
        self.0
    }
}

/// An object that wraps a handle and can lend it out.
pub trait AsHandleRef {
    /// The raw value of the wrapped handle.
    spec fn raw(&self) -> zx_handle_t;

    /// The raw value of the wrapped handle. Two distinct handles have
    /// different raw values.
    fn raw_handle(&self) -> (raw: zx_handle_t)
        ensures
            raw == self.raw(),
    ;

    /// A borrowed view of the wrapped handle.
    fn as_handle_ref(&self) -> (r: HandleRef<'_>)
        ensures
            borrowed_value(r) == self.raw(),
    ;
}

/// An object made of exactly one handle, which can be taken out of it and
/// put back into it.
pub trait HandleBased: AsHandleRef + Sized {
    /// Wraps the handle.
    fn from_handle(handle: Handle) -> (s: Self)
        ensures
            s.raw() == handle@,
    ;

    /// Unwraps the handle.
    fn into_handle(self) -> (h: Handle)
        ensures
            h@ == self.raw(),
    ;

    /// The raw value of the wrapped handle; the caller becomes responsible
    /// for the handle.
    fn into_raw(self) -> (raw: zx_handle_t)
        ensures
            raw == self.raw(),
    {
        self.into_handle().into_raw()
    }

    /// Whether the wrapped handle is the one that names no object.
    fn is_invalid_handle(&self) -> (b: bool)
        ensures
            b == (self.raw() == ZX_HANDLE_INVALID),
    {
        self.raw_handle() == ZX_HANDLE_INVALID
    }
}

/// Turns an object that wraps a handle into another that wraps the same one.
pub fn into_handle_based<G: HandleBased, H: HandleBased>(object: G) -> (other: H)
    ensures
        other.raw() == object.raw(),
{
    H::from_handle(object.into_handle())
}

/// A handle-based object whose kernel object has a peer.
pub trait Peered: HandleBased {

}

/// A borrowed value of type `T`: it names the same handle as its owner, and
/// does not own it.
pub struct Unowned<'a, T: 'a> {
    inner: ManuallyDrop<T>,
    marker: PhantomData<&'a T>,
}

pub type HandleRef<'a> = Unowned<'a, Handle>;

/// The raw value of a borrowed handle.
pub closed spec fn borrowed_value(r: HandleRef<'_>) -> zx_handle_t {
    r.inner@@
}

impl<'a, T: HandleBased> Unowned<'a, T> {
    /// A borrowed `T` for a raw handle that someone else owns.
    pub fn from_raw_handle(handle: zx_handle_t) -> (u: Self)
        ensures
            u.raw() == handle,
    {
        Unowned { inner: ManuallyDrop::new(T::from_handle(Handle::from_raw(handle))), marker: PhantomData }
    }

    /// The raw value of the borrowed handle.
    pub fn raw_handle(&self) -> (raw: zx_handle_t)
        ensures
            raw == self.raw(),
    {
        self.inner.raw_handle()
    }
}

impl<'a, T: HandleBased> AsHandleRef for Unowned<'a, T> {
    closed spec fn raw(&self) -> zx_handle_t {
        self.inner@.raw()
    }

    fn raw_handle(&self) -> (raw: zx_handle_t) {
        self.inner.raw_handle()
    }

    fn as_handle_ref(&self) -> (r: HandleRef<'_>) {
        Unowned { inner: ManuallyDrop::new(Handle(self.inner.raw_handle())), marker: PhantomData }
    }
}

impl AsHandleRef for Handle {
    open spec fn raw(&self) -> zx_handle_t {
        self@
    }

    fn raw_handle(&self) -> (raw: zx_handle_t) {
        self.0
    }

    fn as_handle_ref(&self) -> (r: HandleRef<'_>) {
        Unowned { inner: ManuallyDrop::new(Handle(self.0)), marker: PhantomData }
    }
}

impl HandleBased for Handle {
    fn from_handle(handle: Handle) -> (s: Self) {
        handle
    }

    fn into_handle(self) -> (h: Handle) {
        self
    }
}

/// What the kernel tells about a handle and the object it names.
#[derive(Copy, Clone, Default)]
pub struct HandleBasicInfo(pub zx_info_handle_basic_t);

impl HandleBasicInfo {
    /// The record itself.
    pub fn info(&self) -> (i: &zx_info_handle_basic_t)
        ensures
            *i == self.0,
    {
        &self.0
    }

    /// The kernel's name of the object.
    pub fn koid(&self) -> (k: Koid)
        ensures
            k.0 == self.0.koid,
    {
        Koid(self.0.koid)
    }
}

/// The koid out of the answer to a query for basic information: the koid of
/// the record when the query succeeded, else the status of the failure.
pub fn koid_of(info: Result<HandleBasicInfo, Status>) -> (k: Result<Koid, Status>)
    ensures
        k == (match info {
            Ok(i) => Ok::<Koid, Status>(Koid(i.0.koid)),
            Err(s) => Err(s),
        }),
{
    match info {
        Ok(i) => Ok(i.koid()),
        Err(s) => Err(s),
    }
}

/// The name property of a kernel object, as the kernel holds it: the bytes
/// of `name`, followed by zero bytes up to the length of the property.
pub open spec fn spec_name_property(name: Seq<u8>) -> Seq<u8> {
    Seq::new(ZX_MAX_NAME_LEN as nat, |i: int| if i < name.len() { name[i] } else { 0u8 })
}

/// Whether `i` is the position of the first zero byte of `bytes`.
pub open spec fn is_first_nul(bytes: Seq<u8>, i: int) -> bool {
    &&& 0 <= i < bytes.len()
    &&& bytes[i] == 0
    &&& forall|j: int| 0 <= j < i ==> bytes[j] != 0
}

/// Whether `bytes` holds a zero byte.
pub open spec fn has_nul(bytes: Seq<u8>) -> bool {
    exists|i: int| 0 <= i < bytes.len() && bytes[i] == 0
}

/// Lays out a name for the name property of a kernel object. `name` is the
/// name with its terminating zero byte. A name longer than the property is
/// refused as an invalid argument.
pub fn name_to_property(name: &[u8]) -> (r: Result<[u8; 32], Status>)
    ensures
        name@.len() > ZX_MAX_NAME_LEN ==> r == Err::<[u8; 32], Status>(Status(ZX_ERR_INVALID_ARGS)),
        name@.len() <= ZX_MAX_NAME_LEN ==> r is Ok && r->Ok_0@ == spec_name_property(name@),
{
    if name.len() > ZX_MAX_NAME_LEN {
        return Err(Status(ZX_ERR_INVALID_ARGS));
    }
    let mut buf = [0u8; 32];
    let mut i: usize = 0;
    while i < name.len()
        invariant
            i <= name@.len() <= ZX_MAX_NAME_LEN,
            forall|k: int| 0 <= k < i ==> buf@[k] == name@[k],
            forall|k: int| i <= k < 32 ==> buf@[k] == 0,
        decreases name@.len() - i,
    {
        buf[i] = name[i];
        i += 1;
    }
    assert(buf@ =~= spec_name_property(name@));
    Ok(buf)
}

/// Reads the name out of the name property of a kernel object: the bytes
/// before the first zero byte. A property without a zero byte is an internal
/// error.
pub fn name_from_property(property: &[u8; 32]) -> (r: Result<Vec<u8>, Status>)
    ensures
        !has_nul(property@) ==> r == Err::<Vec<u8>, Status>(Status(ZX_ERR_INTERNAL)),
        has_nul(property@) ==> r is Ok && is_first_nul(property@, r->Ok_0@.len() as int) && r->Ok_0@
            == property@.subrange(0, r->Ok_0@.len() as int),
{
    let mut name: Vec<u8> = Vec::new();
    let mut i: usize = 0;
    while i < 32
        invariant
            i <= 32,
            property@.len() == 32,
            name@ == property@.subrange(0, i as int),
            forall|k: int| 0 <= k < i ==> property@[k] != 0,
        decreases 32 - i,
    {
        if property[i] == 0 {
            assert(is_first_nul(property@, i as int));
            return Ok(name);
        }
        name.push(property[i]);
        assert(name@ =~= property@.subrange(0, i + 1));
        i += 1;
    }
    Err(Status(ZX_ERR_INTERNAL))
}

/// A name that fits the property comes back as it went in. `name` is the
/// name without its terminating zero byte, and holds no zero byte itself.
pub proof fn lemma_name_round_trip(name: Seq<u8>)
    requires
        name.len() < ZX_MAX_NAME_LEN,
        forall|i: int| 0 <= i < name.len() ==> name[i] != 0,
    ensures
        is_first_nul(spec_name_property(name.push(0)), name.len() as int),
        spec_name_property(name.push(0)).subrange(0, name.len() as int) == name,
{
    let p = spec_name_property(name.push(0));
    assert(p[name.len() as int] == name.push(0)[name.len() as int]);
    assert forall|j: int| 0 <= j < name.len() implies p[j] != 0 by {
        assert(p[j] == name.push(0)[j]);
    }
    assert(p.subrange(0, name.len() as int) =~= name);
}

/// An event object: one that can be signalled, and nothing else.
#[derive(Debug, Eq, PartialEq)]
pub struct Event(Handle);

impl AsHandleRef for Event {
    closed spec fn raw(&self) -> zx_handle_t {
        self.0@
    }

    fn raw_handle(&self) -> (raw: zx_handle_t) {
        self.0.raw_handle()
    }

    fn as_handle_ref(&self) -> (r: HandleRef<'_>) {
        self.0.as_handle_ref()
    }
}

impl HandleBased for Event {
    fn from_handle(handle: Handle) -> (s: Self) {
        Event(handle)
    }

    fn into_handle(self) -> (h: Handle) {
        self.0
    }
}

} // verus!
