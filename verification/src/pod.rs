//! Types that can live in a shared memory region.
//!
//! A shared region's bytes are written by remote machines, so the
//! library can only hand them back as values of a type `T` when every
//! bit pattern is a valid `T`. [`RemoteSafe`] is the (user-asserted)
//! marker for such types; [`zeroed_vec`] allocates buffers of them.

use vstd::prelude::*;

use crate::text;
use crate::text::push_decimal;

verus! {

/// A type whose values can live in a shared memory region: **every
/// bit pattern of `size_of::<T>()` bytes is a valid `T`**.
///
/// Remote machines write arbitrary bytes into shared regions, and the
/// library hands those bytes back as `T`s, which is only sound if no
/// pattern is invalid. The compiler cannot check this, so implementing
/// the trait is an assertion by the author that `T` qualifies:
///
/// - `T` is `Copy` (a supertrait): no destructor ever runs on values
///   the remote side fabricated.
/// - Every bit pattern is a valid `T`: `#[repr(C)]` structs of
///   integers, floats, and other `RemoteSafe` types qualify. `bool`,
///   `char`, enums (arbitrary discriminants), references, `Box`,
///   `NonZero*`, and anything containing them do **not**.
/// - Prefer layouts without padding: padding bytes arrive as garbage.
/// - `#[repr(Rust)]` layout is an implementation detail, so agree on
///   `#[repr(C)]` with the remote applications: they are compiled
///   separately and must lay the data out identically.
pub trait RemoteSafe: Copy + 'static {
    /// The value whose every bit is zero.
    fn zeroed() -> (zero: Self);

    /// What the type is called, as `std::any::type_name` spells it:
    /// type identity across separately compiled applications cannot be
    /// verified, so the text only serves diagnostics.
    fn elem_type() -> (name: String);
}

/// Whether `value` is what `T` gives for its all-zero value.
pub open spec fn is_zero<T: RemoteSafe>(value: T) -> bool {
    call_ensures(T::zeroed, (), value)
}

/// Whether `name` is what `T` gives for its name.
pub open spec fn is_name<T: RemoteSafe>(name: String) -> bool {
    call_ensures(T::elem_type, (), name)
}

impl RemoteSafe for u8 {
    fn zeroed() -> (zero: u8)
        ensures
            zero == 0,
    {
        0
    }

    fn elem_type() -> (name: String)
        ensures
            name@ == "u8"@,
    {
        String::from_str("u8")
    }
}

impl RemoteSafe for u16 {
    fn zeroed() -> (zero: u16)
        ensures
            zero == 0,
    {
        0
    }

    fn elem_type() -> (name: String)
        ensures
            name@ == "u16"@,
    {
        String::from_str("u16")
    }
}

impl RemoteSafe for u32 {
    fn zeroed() -> (zero: u32)
        ensures
            zero == 0,
    {
        0
    }

    fn elem_type() -> (name: String)
        ensures
            name@ == "u32"@,
    {
        String::from_str("u32")
    }
}

impl RemoteSafe for u64 {
    fn zeroed() -> (zero: u64)
        ensures
            zero == 0,
    {
        0
    }

    fn elem_type() -> (name: String)
        ensures
            name@ == "u64"@,
    {
        String::from_str("u64")
    }
}

impl RemoteSafe for u128 {
    fn zeroed() -> (zero: u128)
        ensures
            zero == 0,
    {
        0
    }

    fn elem_type() -> (name: String)
        ensures
            name@ == "u128"@,
    {
        String::from_str("u128")
    }
}

impl RemoteSafe for usize {
    fn zeroed() -> (zero: usize)
        ensures
            zero == 0,
    {
        0
    }

    fn elem_type() -> (name: String)
        ensures
            name@ == "usize"@,
    {
        String::from_str("usize")
    }
}

impl RemoteSafe for i8 {
    fn zeroed() -> (zero: i8)
        ensures
            zero == 0,
    {
        0
    }

    fn elem_type() -> (name: String)
        ensures
            name@ == "i8"@,
    {
        String::from_str("i8")
    }
}

impl RemoteSafe for i16 {
    fn zeroed() -> (zero: i16)
        ensures
            zero == 0,
    {
        0
    }

    fn elem_type() -> (name: String)
        ensures
            name@ == "i16"@,
    {
        String::from_str("i16")
    }
}

impl RemoteSafe for i32 {
    fn zeroed() -> (zero: i32)
        ensures
            zero == 0,
    {
        0
    }

    fn elem_type() -> (name: String)
        ensures
            name@ == "i32"@,
    {
        String::from_str("i32")
    }
}

impl RemoteSafe for i64 {
    fn zeroed() -> (zero: i64)
        ensures
            zero == 0,
    {
        0
    }

    fn elem_type() -> (name: String)
        ensures
            name@ == "i64"@,
    {
        String::from_str("i64")
    }
}

impl RemoteSafe for i128 {
    fn zeroed() -> (zero: i128)
        ensures
            zero == 0,
    {
        0
    }

    fn elem_type() -> (name: String)
        ensures
            name@ == "i128"@,
    {
        String::from_str("i128")
    }
}

impl RemoteSafe for isize {
    fn zeroed() -> (zero: isize)
        ensures
            zero == 0,
    {
        0
    }

    fn elem_type() -> (name: String)
        ensures
            name@ == "isize"@,
    {
        String::from_str("isize")
    }
}

// Arrays are contiguous runs of their element: any bit pattern valid
// for the element is valid for the array.
impl<T: RemoteSafe, const N: usize> RemoteSafe for [T; N] {
    fn zeroed() -> (zero: [T; N])
        ensures
            exists|elem: T| #[trigger]
                is_zero(elem) && forall|i: int| 0 <= i < N ==> zero@[i] == elem,
    {
        let elem: T = T::zeroed();
        assert(is_zero(elem));
        [elem; N]
    }

    fn elem_type() -> (name: String)
        ensures
            exists|elem: String| #[trigger]
                is_name::<T>(elem) && name@ == "["@ + elem@ + "; "@ + text::decimal(N as nat) + "]"@,
    {
        let elem: String = T::elem_type();
        assert(is_name::<T>(elem));
        let mut name: String = String::from_str("[");
        name.append(elem.as_str());
        name.append("; ");
        push_decimal(&mut name, N as u64);
        name.append("]");
        name
    }
}

/// A `Vec` of `len` all-zero `T`s, for reads that fill a typed buffer.
pub fn zeroed_vec<T: RemoteSafe>(len: usize) -> (vec: Vec<T>)
    ensures
        vec@.len() == len,
        forall|i: int| 0 <= i < len ==> is_zero(#[trigger] vec@[i]),
{
    let mut vec: Vec<T> = Vec::with_capacity(len);
    while vec.len() < len
        invariant
            vec@.len() <= len,
            forall|i: int| 0 <= i < vec@.len() ==> is_zero(#[trigger] vec@[i]),
        decreases len - vec.len(),
    {
        vec.push(T::zeroed());
    }
    vec
}

} // verus!
