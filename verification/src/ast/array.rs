//! Array information: the `[...]` after a field's type.

use vstd::prelude::*;
use crate::text::decimal;
use crate::text::push_char;
use crate::text::push_decimal;

verus! {

/// UAVCAN array information.
#[derive(Clone, Debug, PartialEq, Eq, Structural)]
pub enum ArrayInfo {
    /// Dynamic array on the less than form (i.e. `uint2[<5]`)
    DynamicLess(u64),
    /// Dynamic array on the less or equal form (i.e. `uint2[<=5]`)
    DynamicLeq(u64),
    /// Static array (i.e. `uint2[5]`)
    Static(u64),
}

/// Whether the array information can be normalized: `[<0]` has no `[<=]` form.
pub open spec fn array_normalizable(a: ArrayInfo) -> bool {
    !(a matches ArrayInfo::DynamicLess(n) && n == 0)
}

/// The normal form of array information: `[<X]` becomes `[<=X-1]`.
pub open spec fn array_normal_form(a: ArrayInfo) -> ArrayInfo {
    match a {
        ArrayInfo::DynamicLess(n) => ArrayInfo::DynamicLeq((n - 1) as u64),
        _ => a,
    }
}

/// The text of array information.
pub open spec fn array_text(a: ArrayInfo) -> Seq<char> {
    match a {
        ArrayInfo::DynamicLess(n) => seq!['[', '<'] + decimal(n as nat) + seq![']'],
        ArrayInfo::DynamicLeq(n) => seq!['[', '<', '='] + decimal(n as nat) + seq![']'],
        ArrayInfo::Static(n) => seq!['['] + decimal(n as nat) + seq![']'],
    }
}

impl ArrayInfo {
    /// Replaces the maximum length specifier of the form `[<X]` with `[<=X-1]`.
    pub fn normalize(self) -> (r: ArrayInfo)
        requires
            array_normalizable(self),
        ensures
            r == array_normal_form(self),
    {
        match self {
            ArrayInfo::DynamicLess(num) => ArrayInfo::DynamicLeq(num - 1),
            x => x,
        }
    }

    /// Appends the array information, as `Display` writes it, to `s`.
    pub fn write_to(&self, s: &mut String)
        ensures
            final(s)@ == old(s)@ + array_text(*self),
    {
        let ghost start = s@;
        push_char(s, '[');
        let n = match self {
            ArrayInfo::DynamicLess(n) => {
                push_char(s, '<');
                *n
            },
            ArrayInfo::DynamicLeq(n) => {
                push_char(s, '<');
                push_char(s, '=');
                *n
            },
            ArrayInfo::Static(n) => *n,
        };
        push_decimal(s, n);
        push_char(s, ']');
        proof {
            match *self {
                ArrayInfo::DynamicLess(m) => {
                    assert(s@ =~= start + array_text(*self));
                },
                ArrayInfo::DynamicLeq(m) => {
                    assert(s@ =~= start + array_text(*self));
                },
                ArrayInfo::Static(m) => {
                    assert(s@ =~= start + array_text(*self));
                },
            }
        }
    }

    /// The array information as `Display` writes it.
    pub fn to_string(&self) -> (s: String)
        ensures
            s@ == array_text(*self),
    {
        let mut s = String::new();
        self.write_to(&mut s);
        assert(Seq::<char>::empty() + array_text(*self) =~= array_text(*self));
        s
    }
}

} // verus!
