//! Arguments for calling script functions, and host values lent to a call.

use crate::dynamic::{Dynamic, Variant};
use vstd::prelude::*;

verus! {

/// A value that turns into the arguments of a script function call.
///
/// Any data type can implement this trait in order to pass arguments to a
/// script function call: `parse` appends the arguments, in order, to the
/// container.
pub trait FuncArgs: Sized {
    /// Append the arguments to `args`, keeping what `args` held.
    fn parse(self, args: &mut Vec<Dynamic>)
        ensures
            old(args)@.len() <= final(args)@.len(),
            final(args)@.subrange(0, old(args)@.len() as int) == old(args)@,
    ;
}

/// An opaque host value lent to a call. The host identifies it by a handle of
/// its own choosing; the engine never looks inside, it only hands the handle to
/// native functions that work on borrowed values.
#[derive(Debug, Clone, Copy, PartialEq, Eq, Structural)]
pub struct BorrowedOpaquePointer {
    /// The host's handle for the value.
    pub ptr: u64,
}

impl BorrowedOpaquePointer {
    /// The opaque reference for the host value with this handle.
    pub fn new(ptr: u64) -> (r: Self)
        ensures
            r == (BorrowedOpaquePointer { ptr }),
    {
        BorrowedOpaquePointer { ptr }
    }
}

/// The value of a borrowed scope binding.
#[derive(Debug)]
pub enum BorrowedScopeValue<'a> {
    /// A borrowed script value, exposed to the script as a variable.
    Dynamic(&'a mut Dynamic),
    /// A borrowed opaque host value, exposed only to borrow-aware native functions.
    Opaque(BorrowedOpaquePointer),
}

/// A host binding lent to a script function call under a name.
#[derive(Debug)]
pub struct BorrowedScopeEntry<'a> {
    /// The binding name.
    pub name: String,
    /// The borrowed value.
    pub value: BorrowedScopeValue<'a>,
}

impl<'a> BorrowedScopeEntry<'a> {
    /// A binding that lends a script value; the script sees it as a variable
    /// and what the script leaves in it is written back when the call returns.
    pub fn dynamic(name: &str, value: &'a mut Dynamic) -> (r: Self)
        ensures
            r.name@ == name@,
            r.value is Dynamic,
            *r.value->Dynamic_0 == *old(value),
            *final(r.value->Dynamic_0) == *final(value),
    {
        BorrowedScopeEntry { name: name.to_owned(), value: BorrowedScopeValue::Dynamic(value) }
    }

    /// A binding that lends an opaque host value, identified by its handle.
    pub fn opaque(name: &str, ptr: u64) -> (r: Self)
        ensures
            r.name@ == name@,
            r.value == BorrowedScopeValue::<'a>::Opaque(BorrowedOpaquePointer { ptr }),
    {
        BorrowedScopeEntry {
            name: name.to_owned(),
            value: BorrowedScopeValue::Opaque(BorrowedOpaquePointer::new(ptr)),
        }
    }

    /// The binding name.
    pub fn name(&self) -> (r: &str)
        ensures
            r@ == self.name@,
    {
        self.name.as_str()
    }

    /// Does this binding lend a script value (rather than an opaque one)?
    pub fn is_dynamic(&self) -> (r: bool)
        ensures
            r == (self.value is Dynamic),
    {
        match &self.value {
            BorrowedScopeValue::Dynamic(_) => true,
            BorrowedScopeValue::Opaque(_) => false,
        }
    }
}

/// A script-visible token that refers to an active borrowed binding by name.
#[derive(Debug, Hash)]
pub struct BorrowToken {
    name: String,
}

impl View for BorrowToken {
    type V = Seq<char>;

    /// The name of the binding the token refers to.
    closed spec fn view(&self) -> Seq<char> {
        self.name@
    }
}

impl BorrowToken {
    /// A token for the binding with this name.
    pub fn new(name: &str) -> (r: Self)
        ensures
            r@ == name@,
    {
        BorrowToken { name: name.to_owned() }
    }

    /// The name of the binding the token refers to.
    pub fn name(&self) -> (r: &str)
        ensures
            r@ == self@,
    {
        self.name.as_str()
    }
}

impl Clone for BorrowToken {
    /// A token for the same binding.
    fn clone(&self) -> (r: Self)
        ensures
            r@ == self@,
    {
        BorrowToken { name: self.name.clone() }
    }
}

impl PartialEq for BorrowToken {
    fn eq(&self, other: &Self) -> (r: bool) {
        self.name == other.name
    }
}

impl vstd::std_specs::cmp::PartialEqSpecImpl for BorrowToken {
    open spec fn obeys_eq_spec() -> bool {
        true
    }

    open spec fn eq_spec(&self, other: &Self) -> bool {
        self@ == other@
    }
}

impl Eq for BorrowToken {}

/// A value that turns into borrowed scope bindings for a call.
pub trait BorrowedFuncArgs<'a>: Sized {
    /// Append the bindings to `args`, keeping what `args` held.
    fn parse(self, args: &mut Vec<BorrowedScopeEntry<'a>>)
        ensures
            old(args)@.len() <= final(args)@.len(),
            final(args)@.subrange(0, old(args)@.len() as int) == old(args)@,
    ;
}

impl<'a> BorrowedFuncArgs<'a> for () {
    fn parse(self, args: &mut Vec<BorrowedScopeEntry<'a>>)
        ensures
            final(args)@ == old(args)@,
    {
        assert(args@ =~= old(args)@);
    }
}

impl<'a> BorrowedFuncArgs<'a> for Vec<BorrowedScopeEntry<'a>> {
    fn parse(self, args: &mut Vec<BorrowedScopeEntry<'a>>)
        ensures
            final(args)@ == old(args)@ + self@,
    {
        let mut entries = self;
        args.append(&mut entries);
    }
}

impl<'a, const LEN: usize> BorrowedFuncArgs<'a> for [BorrowedScopeEntry<'a>; LEN] {
    fn parse(self, args: &mut Vec<BorrowedScopeEntry<'a>>)
        ensures
            final(args)@ == old(args)@ + self@,
    {
        let mut entries = array_into_vec(self);
        args.append(&mut entries);
    }
}

/// `Vec::from` on an array: a vector holding the array's elements in order.
#[verifier::external_body]
fn array_into_vec<T, const N: usize>(a: [T; N]) -> (v: Vec<T>)
    ensures
        v@ == a@,
{
    Vec::from(a)
}

impl<T: Variant> FuncArgs for Vec<T> {
    fn parse(self, args: &mut Vec<Dynamic>)
        ensures
            final(args)@ == old(args)@ + self@.map_values(|t: T| t.dynamic_of()),
    {
        let ghost start = args@;
        let mut i: usize = 0;
        while i < self.len()
            invariant
                i <= self@.len(),
                args@ == start + self@.subrange(0, i as int).map_values(|t: T| t.dynamic_of()),
            decreases self@.len() - i,
        {
            args.push(self[i].to_dynamic());
            i += 1;
            assert(args@ =~= start + self@.subrange(0, i as int).map_values(|t: T| t.dynamic_of()));
        }
        assert(self@.subrange(0, i as int) =~= self@);
    }
}

impl<T: Variant, const N: usize> FuncArgs for [T; N] {
    fn parse(self, args: &mut Vec<Dynamic>)
        ensures
            final(args)@ == old(args)@ + self@.map_values(|t: T| t.dynamic_of()),
    {
        let ghost start = args@;
        let mut i: usize = 0;
        while i < N
            invariant
                i <= N,
                self@.len() == N,
                args@ == start + self@.subrange(0, i as int).map_values(|t: T| t.dynamic_of()),
            decreases N - i,
        {
            args.push(self[i].to_dynamic());
            i += 1;
            assert(args@ =~= start + self@.subrange(0, i as int).map_values(|t: T| t.dynamic_of()));
        }
        assert(self@.subrange(0, i as int) =~= self@);
    }
}

impl FuncArgs for () {
    fn parse(self, args: &mut Vec<Dynamic>)
        ensures
            final(args)@ == old(args)@,
    {
        assert(args@ =~= old(args)@);
    }
}

impl<A: Variant> FuncArgs for (A,) {
    fn parse(self, args: &mut Vec<Dynamic>)
        ensures
            final(args)@ == old(args)@ + seq![self.0.dynamic_of()],
    {
        args.push(self.0.to_dynamic());
        assert(args@ =~= old(args)@ + seq![self.0.dynamic_of()]);
    }
}

impl<A: Variant, B: Variant> FuncArgs for (A, B) {
    fn parse(self, args: &mut Vec<Dynamic>)
        ensures
            final(args)@ == old(args)@ + seq![self.0.dynamic_of(), self.1.dynamic_of()],
    {
        args.push(self.0.to_dynamic());
        args.push(self.1.to_dynamic());
        assert(args@ =~= old(args)@ + seq![self.0.dynamic_of(), self.1.dynamic_of()]);
    }
}

impl<A: Variant, B: Variant, C: Variant> FuncArgs for (A, B, C) {
    fn parse(self, args: &mut Vec<Dynamic>)
        ensures
            final(args)@ == old(args)@ + seq![self.0.dynamic_of(), self.1.dynamic_of(), self.2.dynamic_of()],
    {
        args.push(self.0.to_dynamic());
        args.push(self.1.to_dynamic());
        args.push(self.2.to_dynamic());
        assert(args@ =~= old(args)@ + seq![self.0.dynamic_of(), self.1.dynamic_of(), self.2.dynamic_of()]);
    }
}

impl<A: Variant, B: Variant, C: Variant, D: Variant> FuncArgs for (A, B, C, D) {
    fn parse(self, args: &mut Vec<Dynamic>)
        ensures
            final(args)@ == old(args)@ + seq![
                self.0.dynamic_of(),
                self.1.dynamic_of(),
                self.2.dynamic_of(),
                self.3.dynamic_of(),
            ],
    {
        args.push(self.0.to_dynamic());
        args.push(self.1.to_dynamic());
        args.push(self.2.to_dynamic());
        args.push(self.3.to_dynamic());
        assert(args@ =~= old(args)@ + seq![
            self.0.dynamic_of(),
            self.1.dynamic_of(),
            self.2.dynamic_of(),
            self.3.dynamic_of(),
        ]);
    }
}

impl<
    A: Variant,
    B: Variant,
    C: Variant,
    D: Variant,
    E: Variant,
> FuncArgs for (
    A,
    B,
    C,
    D,
    E,
) {
    fn parse(self, args: &mut Vec<Dynamic>)
        ensures
            final(args)@ == old(args)@ + seq![
                self.0.dynamic_of(),
                self.1.dynamic_of(),
                self.2.dynamic_of(),
                self.3.dynamic_of(),
                self.4.dynamic_of(),
            ],
    {
        args.push(self.0.to_dynamic());
        args.push(self.1.to_dynamic());
        args.push(self.2.to_dynamic());
        args.push(self.3.to_dynamic());
        args.push(self.4.to_dynamic());
        assert(args@ =~= old(args)@ + seq![
            self.0.dynamic_of(),
            self.1.dynamic_of(),
            self.2.dynamic_of(),
            self.3.dynamic_of(),
            self.4.dynamic_of(),
        ]);
    }
}

impl<
    A: Variant,
    B: Variant,
    C: Variant,
    D: Variant,
    E: Variant,
    F: Variant,
> FuncArgs for (
    A,
    B,
    C,
    D,
    E,
    F,
) {
    fn parse(self, args: &mut Vec<Dynamic>)
        ensures
            final(args)@ == old(args)@ + seq![
                self.0.dynamic_of(),
                self.1.dynamic_of(),
                self.2.dynamic_of(),
                self.3.dynamic_of(),
                self.4.dynamic_of(),
                self.5.dynamic_of(),
            ],
    {
        args.push(self.0.to_dynamic());
        args.push(self.1.to_dynamic());
        args.push(self.2.to_dynamic());
        args.push(self.3.to_dynamic());
        args.push(self.4.to_dynamic());
        args.push(self.5.to_dynamic());
        assert(args@ =~= old(args)@ + seq![
            self.0.dynamic_of(),
            self.1.dynamic_of(),
            self.2.dynamic_of(),
            self.3.dynamic_of(),
            self.4.dynamic_of(),
            self.5.dynamic_of(),
        ]);
    }
}

impl<
    A: Variant,
    B: Variant,
    C: Variant,
    D: Variant,
    E: Variant,
    F: Variant,
    G: Variant,
> FuncArgs for (
    A,
    B,
    C,
    D,
    E,
    F,
    G,
) {
    fn parse(self, args: &mut Vec<Dynamic>)
        ensures
            final(args)@ == old(args)@ + seq![
                self.0.dynamic_of(),
                self.1.dynamic_of(),
                self.2.dynamic_of(),
                self.3.dynamic_of(),
                self.4.dynamic_of(),
                self.5.dynamic_of(),
                self.6.dynamic_of(),
            ],
    {
        args.push(self.0.to_dynamic());
        args.push(self.1.to_dynamic());
        args.push(self.2.to_dynamic());
        args.push(self.3.to_dynamic());
        args.push(self.4.to_dynamic());
        args.push(self.5.to_dynamic());
        args.push(self.6.to_dynamic());
        assert(args@ =~= old(args)@ + seq![
            self.0.dynamic_of(),
            self.1.dynamic_of(),
            self.2.dynamic_of(),
            self.3.dynamic_of(),
            self.4.dynamic_of(),
            self.5.dynamic_of(),
            self.6.dynamic_of(),
        ]);
    }
}

impl<
    A: Variant,
    B: Variant,
    C: Variant,
    D: Variant,
    E: Variant,
    F: Variant,
    G: Variant,
    H: Variant,
> FuncArgs for (
    A,
    B,
    C,
    D,
    E,
    F,
    G,
    H,
) {
    fn parse(self, args: &mut Vec<Dynamic>)
        ensures
            final(args)@ == old(args)@ + seq![
                self.0.dynamic_of(),
                self.1.dynamic_of(),
                self.2.dynamic_of(),
                self.3.dynamic_of(),
                self.4.dynamic_of(),
                self.5.dynamic_of(),
                self.6.dynamic_of(),
                self.7.dynamic_of(),
            ],
    {
        args.push(self.0.to_dynamic());
        args.push(self.1.to_dynamic());
        args.push(self.2.to_dynamic());
        args.push(self.3.to_dynamic());
        args.push(self.4.to_dynamic());
        args.push(self.5.to_dynamic());
        args.push(self.6.to_dynamic());
        args.push(self.7.to_dynamic());
        assert(args@ =~= old(args)@ + seq![
            self.0.dynamic_of(),
            self.1.dynamic_of(),
            self.2.dynamic_of(),
            self.3.dynamic_of(),
            self.4.dynamic_of(),
            self.5.dynamic_of(),
            self.6.dynamic_of(),
            self.7.dynamic_of(),
        ]);
    }
}

impl<
    A: Variant,
    B: Variant,
    C: Variant,
    D: Variant,
    E: Variant,
    F: Variant,
    G: Variant,
    H: Variant,
    J: Variant,
> FuncArgs for (
    A,
    B,
    C,
    D,
    E,
    F,
    G,
    H,
    J,
) {
    fn parse(self, args: &mut Vec<Dynamic>)
        ensures
            final(args)@ == old(args)@ + seq![
                self.0.dynamic_of(),
                self.1.dynamic_of(),
                self.2.dynamic_of(),
                self.3.dynamic_of(),
                self.4.dynamic_of(),
                self.5.dynamic_of(),
                self.6.dynamic_of(),
                self.7.dynamic_of(),
                self.8.dynamic_of(),
            ],
    {
        args.push(self.0.to_dynamic());
        args.push(self.1.to_dynamic());
        args.push(self.2.to_dynamic());
        args.push(self.3.to_dynamic());
        args.push(self.4.to_dynamic());
        args.push(self.5.to_dynamic());
        args.push(self.6.to_dynamic());
        args.push(self.7.to_dynamic());
        args.push(self.8.to_dynamic());
        assert(args@ =~= old(args)@ + seq![
            self.0.dynamic_of(),
            self.1.dynamic_of(),
            self.2.dynamic_of(),
            self.3.dynamic_of(),
            self.4.dynamic_of(),
            self.5.dynamic_of(),
            self.6.dynamic_of(),
            self.7.dynamic_of(),
            self.8.dynamic_of(),
        ]);
    }
}

impl<
    A: Variant,
    B: Variant,
    C: Variant,
    D: Variant,
    E: Variant,
    F: Variant,
    G: Variant,
    H: Variant,
    J: Variant,
    K: Variant,
> FuncArgs for (
    A,
    B,
    C,
    D,
    E,
    F,
    G,
    H,
    J,
    K,
) {
    fn parse(self, args: &mut Vec<Dynamic>)
        ensures
            final(args)@ == old(args)@ + seq![
                self.0.dynamic_of(),
                self.1.dynamic_of(),
                self.2.dynamic_of(),
                self.3.dynamic_of(),
                self.4.dynamic_of(),
                self.5.dynamic_of(),
                self.6.dynamic_of(),
                self.7.dynamic_of(),
                self.8.dynamic_of(),
                self.9.dynamic_of(),
            ],
    {
        args.push(self.0.to_dynamic());
        args.push(self.1.to_dynamic());
        args.push(self.2.to_dynamic());
        args.push(self.3.to_dynamic());
        args.push(self.4.to_dynamic());
        args.push(self.5.to_dynamic());
        args.push(self.6.to_dynamic());
        args.push(self.7.to_dynamic());
        args.push(self.8.to_dynamic());
        args.push(self.9.to_dynamic());
        assert(args@ =~= old(args)@ + seq![
            self.0.dynamic_of(),
            self.1.dynamic_of(),
            self.2.dynamic_of(),
            self.3.dynamic_of(),
            self.4.dynamic_of(),
            self.5.dynamic_of(),
            self.6.dynamic_of(),
            self.7.dynamic_of(),
            self.8.dynamic_of(),
            self.9.dynamic_of(),
        ]);
    }
}

impl<
    A: Variant,
    B: Variant,
    C: Variant,
    D: Variant,
    E: Variant,
    F: Variant,
    G: Variant,
    H: Variant,
    J: Variant,
    K: Variant,
    L: Variant,
> FuncArgs for (
    A,
    B,
    C,
    D,
    E,
    F,
    G,
    H,
    J,
    K,
    L,
) {
    fn parse(self, args: &mut Vec<Dynamic>)
        ensures
            final(args)@ == old(args)@ + seq![
                self.0.dynamic_of(),
                self.1.dynamic_of(),
                self.2.dynamic_of(),
                self.3.dynamic_of(),
                self.4.dynamic_of(),
                self.5.dynamic_of(),
                self.6.dynamic_of(),
                self.7.dynamic_of(),
                self.8.dynamic_of(),
                self.9.dynamic_of(),
                self.10.dynamic_of(),
            ],
    {
        args.push(self.0.to_dynamic());
        args.push(self.1.to_dynamic());
        args.push(self.2.to_dynamic());
        args.push(self.3.to_dynamic());
        args.push(self.4.to_dynamic());
        args.push(self.5.to_dynamic());
        args.push(self.6.to_dynamic());
        args.push(self.7.to_dynamic());
        args.push(self.8.to_dynamic());
        args.push(self.9.to_dynamic());
        args.push(self.10.to_dynamic());
        assert(args@ =~= old(args)@ + seq![
            self.0.dynamic_of(),
            self.1.dynamic_of(),
            self.2.dynamic_of(),
            self.3.dynamic_of(),
            self.4.dynamic_of(),
            self.5.dynamic_of(),
            self.6.dynamic_of(),
            self.7.dynamic_of(),
            self.8.dynamic_of(),
            self.9.dynamic_of(),
            self.10.dynamic_of(),
        ]);
    }
}

impl<
    A: Variant,
    B: Variant,
    C: Variant,
    D: Variant,
    E: Variant,
    F: Variant,
    G: Variant,
    H: Variant,
    J: Variant,
    K: Variant,
    L: Variant,
    M: Variant,
> FuncArgs for (
    A,
    B,
    C,
    D,
    E,
    F,
    G,
    H,
    J,
    K,
    L,
    M,
) {
    fn parse(self, args: &mut Vec<Dynamic>)
        ensures
            final(args)@ == old(args)@ + seq![
                self.0.dynamic_of(),
                self.1.dynamic_of(),
                self.2.dynamic_of(),
                self.3.dynamic_of(),
                self.4.dynamic_of(),
                self.5.dynamic_of(),
                self.6.dynamic_of(),
                self.7.dynamic_of(),
                self.8.dynamic_of(),
                self.9.dynamic_of(),
                self.10.dynamic_of(),
                self.11.dynamic_of(),
            ],
    {
        args.push(self.0.to_dynamic());
        args.push(self.1.to_dynamic());
        args.push(self.2.to_dynamic());
        args.push(self.3.to_dynamic());
        args.push(self.4.to_dynamic());
        args.push(self.5.to_dynamic());
        args.push(self.6.to_dynamic());
        args.push(self.7.to_dynamic());
        args.push(self.8.to_dynamic());
        args.push(self.9.to_dynamic());
        args.push(self.10.to_dynamic());
        args.push(self.11.to_dynamic());
        assert(args@ =~= old(args)@ + seq![
            self.0.dynamic_of(),
            self.1.dynamic_of(),
            self.2.dynamic_of(),
            self.3.dynamic_of(),
            self.4.dynamic_of(),
            self.5.dynamic_of(),
            self.6.dynamic_of(),
            self.7.dynamic_of(),
            self.8.dynamic_of(),
            self.9.dynamic_of(),
            self.10.dynamic_of(),
            self.11.dynamic_of(),
        ]);
    }
}

impl<
    A: Variant,
    B: Variant,
    C: Variant,
    D: Variant,
    E: Variant,
    F: Variant,
    G: Variant,
    H: Variant,
    J: Variant,
    K: Variant,
    L: Variant,
    M: Variant,
    N: Variant,
> FuncArgs for (
    A,
    B,
    C,
    D,
    E,
    F,
    G,
    H,
    J,
    K,
    L,
    M,
    N,
) {
    fn parse(self, args: &mut Vec<Dynamic>)
        ensures
            final(args)@ == old(args)@ + seq![
                self.0.dynamic_of(),
                self.1.dynamic_of(),
                self.2.dynamic_of(),
                self.3.dynamic_of(),
                self.4.dynamic_of(),
                self.5.dynamic_of(),
                self.6.dynamic_of(),
                self.7.dynamic_of(),
                self.8.dynamic_of(),
                self.9.dynamic_of(),
                self.10.dynamic_of(),
                self.11.dynamic_of(),
                self.12.dynamic_of(),
            ],
    {
        args.push(self.0.to_dynamic());
        args.push(self.1.to_dynamic());
        args.push(self.2.to_dynamic());
        args.push(self.3.to_dynamic());
        args.push(self.4.to_dynamic());
        args.push(self.5.to_dynamic());
        args.push(self.6.to_dynamic());
        args.push(self.7.to_dynamic());
        args.push(self.8.to_dynamic());
        args.push(self.9.to_dynamic());
        args.push(self.10.to_dynamic());
        args.push(self.11.to_dynamic());
        args.push(self.12.to_dynamic());
        assert(args@ =~= old(args)@ + seq![
            self.0.dynamic_of(),
            self.1.dynamic_of(),
            self.2.dynamic_of(),
            self.3.dynamic_of(),
            self.4.dynamic_of(),
            self.5.dynamic_of(),
            self.6.dynamic_of(),
            self.7.dynamic_of(),
            self.8.dynamic_of(),
            self.9.dynamic_of(),
            self.10.dynamic_of(),
            self.11.dynamic_of(),
            self.12.dynamic_of(),
        ]);
    }
}

impl<
    A: Variant,
    B: Variant,
    C: Variant,
    D: Variant,
    E: Variant,
    F: Variant,
    G: Variant,
    H: Variant,
    J: Variant,
    K: Variant,
    L: Variant,
    M: Variant,
    N: Variant,
    P: Variant,
> FuncArgs for (
    A,
    B,
    C,
    D,
    E,
    F,
    G,
    H,
    J,
    K,
    L,
    M,
    N,
    P,
) {
    fn parse(self, args: &mut Vec<Dynamic>)
        ensures
            final(args)@ == old(args)@ + seq![
                self.0.dynamic_of(),
                self.1.dynamic_of(),
                self.2.dynamic_of(),
                self.3.dynamic_of(),
                self.4.dynamic_of(),
                self.5.dynamic_of(),
                self.6.dynamic_of(),
                self.7.dynamic_of(),
                self.8.dynamic_of(),
                self.9.dynamic_of(),
                self.10.dynamic_of(),
                self.11.dynamic_of(),
                self.12.dynamic_of(),
                self.13.dynamic_of(),
            ],
    {
        args.push(self.0.to_dynamic());
        args.push(self.1.to_dynamic());
        args.push(self.2.to_dynamic());
        args.push(self.3.to_dynamic());
        args.push(self.4.to_dynamic());
        args.push(self.5.to_dynamic());
        args.push(self.6.to_dynamic());
        args.push(self.7.to_dynamic());
        args.push(self.8.to_dynamic());
        args.push(self.9.to_dynamic());
        args.push(self.10.to_dynamic());
        args.push(self.11.to_dynamic());
        args.push(self.12.to_dynamic());
        args.push(self.13.to_dynamic());
        assert(args@ =~= old(args)@ + seq![
            self.0.dynamic_of(),
            self.1.dynamic_of(),
            self.2.dynamic_of(),
            self.3.dynamic_of(),
            self.4.dynamic_of(),
            self.5.dynamic_of(),
            self.6.dynamic_of(),
            self.7.dynamic_of(),
            self.8.dynamic_of(),
            self.9.dynamic_of(),
            self.10.dynamic_of(),
            self.11.dynamic_of(),
            self.12.dynamic_of(),
            self.13.dynamic_of(),
        ]);
    }
}

impl<
    A: Variant,
    B: Variant,
    C: Variant,
    D: Variant,
    E: Variant,
    F: Variant,
    G: Variant,
    H: Variant,
    J: Variant,
    K: Variant,
    L: Variant,
    M: Variant,
    N: Variant,
    P: Variant,
    Q: Variant,
> FuncArgs for (
    A,
    B,
    C,
    D,
    E,
    F,
    G,
    H,
    J,
    K,
    L,
    M,
    N,
    P,
    Q,
) {
    fn parse(self, args: &mut Vec<Dynamic>)
        ensures
            final(args)@ == old(args)@ + seq![
                self.0.dynamic_of(),
                self.1.dynamic_of(),
                self.2.dynamic_of(),
                self.3.dynamic_of(),
                self.4.dynamic_of(),
                self.5.dynamic_of(),
                self.6.dynamic_of(),
                self.7.dynamic_of(),
                self.8.dynamic_of(),
                self.9.dynamic_of(),
                self.10.dynamic_of(),
                self.11.dynamic_of(),
                self.12.dynamic_of(),
                self.13.dynamic_of(),
                self.14.dynamic_of(),
            ],
    {
        args.push(self.0.to_dynamic());
        args.push(self.1.to_dynamic());
        args.push(self.2.to_dynamic());
        args.push(self.3.to_dynamic());
        args.push(self.4.to_dynamic());
        args.push(self.5.to_dynamic());
        args.push(self.6.to_dynamic());
        args.push(self.7.to_dynamic());
        args.push(self.8.to_dynamic());
        args.push(self.9.to_dynamic());
        args.push(self.10.to_dynamic());
        args.push(self.11.to_dynamic());
        args.push(self.12.to_dynamic());
        args.push(self.13.to_dynamic());
        args.push(self.14.to_dynamic());
        assert(args@ =~= old(args)@ + seq![
            self.0.dynamic_of(),
            self.1.dynamic_of(),
            self.2.dynamic_of(),
            self.3.dynamic_of(),
            self.4.dynamic_of(),
            self.5.dynamic_of(),
            self.6.dynamic_of(),
            self.7.dynamic_of(),
            self.8.dynamic_of(),
            self.9.dynamic_of(),
            self.10.dynamic_of(),
            self.11.dynamic_of(),
            self.12.dynamic_of(),
            self.13.dynamic_of(),
            self.14.dynamic_of(),
        ]);
    }
}

impl<
    A: Variant,
    B: Variant,
    C: Variant,
    D: Variant,
    E: Variant,
    F: Variant,
    G: Variant,
    H: Variant,
    J: Variant,
    K: Variant,
    L: Variant,
    M: Variant,
    N: Variant,
    P: Variant,
    Q: Variant,
    R: Variant,
> FuncArgs for (
    A,
    B,
    C,
    D,
    E,
    F,
    G,
    H,
    J,
    K,
    L,
    M,
    N,
    P,
    Q,
    R,
) {
    fn parse(self, args: &mut Vec<Dynamic>)
        ensures
            final(args)@ == old(args)@ + seq![
                self.0.dynamic_of(),
                self.1.dynamic_of(),
                self.2.dynamic_of(),
                self.3.dynamic_of(),
                self.4.dynamic_of(),
                self.5.dynamic_of(),
                self.6.dynamic_of(),
                self.7.dynamic_of(),
                self.8.dynamic_of(),
                self.9.dynamic_of(),
                self.10.dynamic_of(),
                self.11.dynamic_of(),
                self.12.dynamic_of(),
                self.13.dynamic_of(),
                self.14.dynamic_of(),
                self.15.dynamic_of(),
            ],
    {
        args.push(self.0.to_dynamic());
        args.push(self.1.to_dynamic());
        args.push(self.2.to_dynamic());
        args.push(self.3.to_dynamic());
        args.push(self.4.to_dynamic());
        args.push(self.5.to_dynamic());
        args.push(self.6.to_dynamic());
        args.push(self.7.to_dynamic());
        args.push(self.8.to_dynamic());
        args.push(self.9.to_dynamic());
        args.push(self.10.to_dynamic());
        args.push(self.11.to_dynamic());
        args.push(self.12.to_dynamic());
        args.push(self.13.to_dynamic());
        args.push(self.14.to_dynamic());
        args.push(self.15.to_dynamic());
        assert(args@ =~= old(args)@ + seq![
            self.0.dynamic_of(),
            self.1.dynamic_of(),
            self.2.dynamic_of(),
            self.3.dynamic_of(),
            self.4.dynamic_of(),
            self.5.dynamic_of(),
            self.6.dynamic_of(),
            self.7.dynamic_of(),
            self.8.dynamic_of(),
            self.9.dynamic_of(),
            self.10.dynamic_of(),
            self.11.dynamic_of(),
            self.12.dynamic_of(),
            self.13.dynamic_of(),
            self.14.dynamic_of(),
            self.15.dynamic_of(),
        ]);
    }
}

impl<
    A: Variant,
    B: Variant,
    C: Variant,
    D: Variant,
    E: Variant,
    F: Variant,
    G: Variant,
    H: Variant,
    J: Variant,
    K: Variant,
    L: Variant,
    M: Variant,
    N: Variant,
    P: Variant,
    Q: Variant,
    R: Variant,
    S: Variant,
> FuncArgs for (
    A,
    B,
    C,
    D,
    E,
    F,
    G,
    H,
    J,
    K,
    L,
    M,
    N,
    P,
    Q,
    R,
    S,
) {
    fn parse(self, args: &mut Vec<Dynamic>)
        ensures
            final(args)@ == old(args)@ + seq![
                self.0.dynamic_of(),
                self.1.dynamic_of(),
                self.2.dynamic_of(),
                self.3.dynamic_of(),
                self.4.dynamic_of(),
                self.5.dynamic_of(),
                self.6.dynamic_of(),
                self.7.dynamic_of(),
                self.8.dynamic_of(),
                self.9.dynamic_of(),
                self.10.dynamic_of(),
                self.11.dynamic_of(),
                self.12.dynamic_of(),
                self.13.dynamic_of(),
                self.14.dynamic_of(),
                self.15.dynamic_of(),
                self.16.dynamic_of(),
            ],
    {
        args.push(self.0.to_dynamic());
        args.push(self.1.to_dynamic());
        args.push(self.2.to_dynamic());
        args.push(self.3.to_dynamic());
        args.push(self.4.to_dynamic());
        args.push(self.5.to_dynamic());
        args.push(self.6.to_dynamic());
        args.push(self.7.to_dynamic());
        args.push(self.8.to_dynamic());
        args.push(self.9.to_dynamic());
        args.push(self.10.to_dynamic());
        args.push(self.11.to_dynamic());
        args.push(self.12.to_dynamic());
        args.push(self.13.to_dynamic());
        args.push(self.14.to_dynamic());
        args.push(self.15.to_dynamic());
        args.push(self.16.to_dynamic());
        assert(args@ =~= old(args)@ + seq![
            self.0.dynamic_of(),
            self.1.dynamic_of(),
            self.2.dynamic_of(),
            self.3.dynamic_of(),
            self.4.dynamic_of(),
            self.5.dynamic_of(),
            self.6.dynamic_of(),
            self.7.dynamic_of(),
            self.8.dynamic_of(),
            self.9.dynamic_of(),
            self.10.dynamic_of(),
            self.11.dynamic_of(),
            self.12.dynamic_of(),
            self.13.dynamic_of(),
            self.14.dynamic_of(),
            self.15.dynamic_of(),
            self.16.dynamic_of(),
        ]);
    }
}

impl<
    A: Variant,
    B: Variant,
    C: Variant,
    D: Variant,
    E: Variant,
    F: Variant,
    G: Variant,
    H: Variant,
    J: Variant,
    K: Variant,
    L: Variant,
    M: Variant,
    N: Variant,
    P: Variant,
    Q: Variant,
    R: Variant,
    S: Variant,
    T: Variant,
> FuncArgs for (
    A,
    B,
    C,
    D,
    E,
    F,
    G,
    H,
    J,
    K,
    L,
    M,
    N,
    P,
    Q,
    R,
    S,
    T,
) {
    fn parse(self, args: &mut Vec<Dynamic>)
        ensures
            final(args)@ == old(args)@ + seq![
                self.0.dynamic_of(),
                self.1.dynamic_of(),
                self.2.dynamic_of(),
                self.3.dynamic_of(),
                self.4.dynamic_of(),
                self.5.dynamic_of(),
                self.6.dynamic_of(),
                self.7.dynamic_of(),
                self.8.dynamic_of(),
                self.9.dynamic_of(),
                self.10.dynamic_of(),
                self.11.dynamic_of(),
                self.12.dynamic_of(),
                self.13.dynamic_of(),
                self.14.dynamic_of(),
                self.15.dynamic_of(),
                self.16.dynamic_of(),
                self.17.dynamic_of(),
            ],
    {
        args.push(self.0.to_dynamic());
        args.push(self.1.to_dynamic());
        args.push(self.2.to_dynamic());
        args.push(self.3.to_dynamic());
        args.push(self.4.to_dynamic());
        args.push(self.5.to_dynamic());
        args.push(self.6.to_dynamic());
        args.push(self.7.to_dynamic());
        args.push(self.8.to_dynamic());
        args.push(self.9.to_dynamic());
        args.push(self.10.to_dynamic());
        args.push(self.11.to_dynamic());
        args.push(self.12.to_dynamic());
        args.push(self.13.to_dynamic());
        args.push(self.14.to_dynamic());
        args.push(self.15.to_dynamic());
        args.push(self.16.to_dynamic());
        args.push(self.17.to_dynamic());
        assert(args@ =~= old(args)@ + seq![
            self.0.dynamic_of(),
            self.1.dynamic_of(),
            self.2.dynamic_of(),
            self.3.dynamic_of(),
            self.4.dynamic_of(),
            self.5.dynamic_of(),
            self.6.dynamic_of(),
            self.7.dynamic_of(),
            self.8.dynamic_of(),
            self.9.dynamic_of(),
            self.10.dynamic_of(),
            self.11.dynamic_of(),
            self.12.dynamic_of(),
            self.13.dynamic_of(),
            self.14.dynamic_of(),
            self.15.dynamic_of(),
            self.16.dynamic_of(),
            self.17.dynamic_of(),
        ]);
    }
}

impl<
    A: Variant,
    B: Variant,
    C: Variant,
    D: Variant,
    E: Variant,
    F: Variant,
    G: Variant,
    H: Variant,
    J: Variant,
    K: Variant,
    L: Variant,
    M: Variant,
    N: Variant,
    P: Variant,
    Q: Variant,
    R: Variant,
    S: Variant,
    T: Variant,
    U: Variant,
> FuncArgs for (
    A,
    B,
    C,
    D,
    E,
    F,
    G,
    H,
    J,
    K,
    L,
    M,
    N,
    P,
    Q,
    R,
    S,
    T,
    U,
) {
    fn parse(self, args: &mut Vec<Dynamic>)
        ensures
            final(args)@ == old(args)@ + seq![
                self.0.dynamic_of(),
                self.1.dynamic_of(),
                self.2.dynamic_of(),
                self.3.dynamic_of(),
                self.4.dynamic_of(),
                self.5.dynamic_of(),
                self.6.dynamic_of(),
                self.7.dynamic_of(),
                self.8.dynamic_of(),
                self.9.dynamic_of(),
                self.10.dynamic_of(),
                self.11.dynamic_of(),
                self.12.dynamic_of(),
                self.13.dynamic_of(),
                self.14.dynamic_of(),
                self.15.dynamic_of(),
                self.16.dynamic_of(),
                self.17.dynamic_of(),
                self.18.dynamic_of(),
            ],
    {
        args.push(self.0.to_dynamic());
        args.push(self.1.to_dynamic());
        args.push(self.2.to_dynamic());
        args.push(self.3.to_dynamic());
        args.push(self.4.to_dynamic());
        args.push(self.5.to_dynamic());
        args.push(self.6.to_dynamic());
        args.push(self.7.to_dynamic());
        args.push(self.8.to_dynamic());
        args.push(self.9.to_dynamic());
        args.push(self.10.to_dynamic());
        args.push(self.11.to_dynamic());
        args.push(self.12.to_dynamic());
        args.push(self.13.to_dynamic());
        args.push(self.14.to_dynamic());
        args.push(self.15.to_dynamic());
        args.push(self.16.to_dynamic());
        args.push(self.17.to_dynamic());
        args.push(self.18.to_dynamic());
        assert(args@ =~= old(args)@ + seq![
            self.0.dynamic_of(),
            self.1.dynamic_of(),
            self.2.dynamic_of(),
            self.3.dynamic_of(),
            self.4.dynamic_of(),
            self.5.dynamic_of(),
            self.6.dynamic_of(),
            self.7.dynamic_of(),
            self.8.dynamic_of(),
            self.9.dynamic_of(),
            self.10.dynamic_of(),
            self.11.dynamic_of(),
            self.12.dynamic_of(),
            self.13.dynamic_of(),
            self.14.dynamic_of(),
            self.15.dynamic_of(),
            self.16.dynamic_of(),
            self.17.dynamic_of(),
            self.18.dynamic_of(),
        ]);
    }
}

impl<
    A: Variant,
    B: Variant,
    C: Variant,
    D: Variant,
    E: Variant,
    F: Variant,
    G: Variant,
    H: Variant,
    J: Variant,
    K: Variant,
    L: Variant,
    M: Variant,
    N: Variant,
    P: Variant,
    Q: Variant,
    R: Variant,
    S: Variant,
    T: Variant,
    U: Variant,
    V: Variant,
> FuncArgs for (
    A,
    B,
    C,
    D,
    E,
    F,
    G,
    H,
    J,
    K,
    L,
    M,
    N,
    P,
    Q,
    R,
    S,
    T,
    U,
    V,
) {
    fn parse(self, args: &mut Vec<Dynamic>)
        ensures
            final(args)@ == old(args)@ + seq![
                self.0.dynamic_of(),
                self.1.dynamic_of(),
                self.2.dynamic_of(),
                self.3.dynamic_of(),
                self.4.dynamic_of(),
                self.5.dynamic_of(),
                self.6.dynamic_of(),
                self.7.dynamic_of(),
                self.8.dynamic_of(),
                self.9.dynamic_of(),
                self.10.dynamic_of(),
                self.11.dynamic_of(),
                self.12.dynamic_of(),
                self.13.dynamic_of(),
                self.14.dynamic_of(),
                self.15.dynamic_of(),
                self.16.dynamic_of(),
                self.17.dynamic_of(),
                self.18.dynamic_of(),
                self.19.dynamic_of(),
            ],
    {
        args.push(self.0.to_dynamic());
        args.push(self.1.to_dynamic());
        args.push(self.2.to_dynamic());
        args.push(self.3.to_dynamic());
        args.push(self.4.to_dynamic());
        args.push(self.5.to_dynamic());
        args.push(self.6.to_dynamic());
        args.push(self.7.to_dynamic());
        args.push(self.8.to_dynamic());
        args.push(self.9.to_dynamic());
        args.push(self.10.to_dynamic());
        args.push(self.11.to_dynamic());
        args.push(self.12.to_dynamic());
        args.push(self.13.to_dynamic());
        args.push(self.14.to_dynamic());
        args.push(self.15.to_dynamic());
        args.push(self.16.to_dynamic());
        args.push(self.17.to_dynamic());
        args.push(self.18.to_dynamic());
        args.push(self.19.to_dynamic());
        assert(args@ =~= old(args)@ + seq![
            self.0.dynamic_of(),
            self.1.dynamic_of(),
            self.2.dynamic_of(),
            self.3.dynamic_of(),
            self.4.dynamic_of(),
            self.5.dynamic_of(),
            self.6.dynamic_of(),
            self.7.dynamic_of(),
            self.8.dynamic_of(),
            self.9.dynamic_of(),
            self.10.dynamic_of(),
            self.11.dynamic_of(),
            self.12.dynamic_of(),
            self.13.dynamic_of(),
            self.14.dynamic_of(),
            self.15.dynamic_of(),
            self.16.dynamic_of(),
            self.17.dynamic_of(),
            self.18.dynamic_of(),
            self.19.dynamic_of(),
        ]);
    }
}

} // verus!
