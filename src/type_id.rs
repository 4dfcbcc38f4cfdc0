//! Structural identities of types.
use std::marker::PhantomData;
use vstd::prelude::*;
use crate::namespace::Namespace;

verus! {

/// The fixed set of primitive kinds.
#[derive(Clone, Copy, Debug, PartialEq, Eq, Structural)]
pub enum TypeIdPrimitive {
    Bool,
    Char,
    Str,
    U8,
    U16,
    U32,
    U64,
    U128,
    I8,
    I16,
    I32,
    I64,
    I128,
}

/// The structural identity of a type. Indirection (references, boxes, owned
/// strings against string slices) carries no identity.
#[derive(Debug)]
pub enum TypeId {
    Primitive(TypeIdPrimitive),
    /// A fixed-size sequence: its length and its element.
    Array(u64, Box<TypeId>),
    /// A borrowed sequence of any length.
    Slice(Box<TypeId>),
    /// A tuple, in declared order; the empty one is the unit type.
    Tuple(Vec<TypeId>),
    /// A named type: its name, its namespace and its type parameters.
    Custom(String, Namespace, Vec<TypeId>),
}

/// The mathematical value of a [`TypeId`].
pub enum IdModel {
    Primitive(TypeIdPrimitive),
    Array(u64, Box<IdModel>),
    Slice(Box<IdModel>),
    Tuple(Seq<IdModel>),
    Custom(Seq<char>, Seq<Seq<char>>, Seq<IdModel>),
}

/// The model of a type identity.
pub open spec fn id_model(t: TypeId) -> IdModel
    decreases t, 0nat,
{
    match t {
        TypeId::Primitive(p) => IdModel::Primitive(p),
        TypeId::Array(n, e) => IdModel::Array(n, Box::new(id_model(*e))),
        TypeId::Slice(e) => IdModel::Slice(Box::new(id_model(*e))),
        TypeId::Tuple(v) => IdModel::Tuple(ids_upto(v, v@.len())),
        TypeId::Custom(name, ns, v) => IdModel::Custom(name@, ns@, ids_upto(v, v@.len())),
    }
}

/// The models of the first `n` identities of `v`.
pub open spec fn ids_upto(v: Vec<TypeId>, n: nat) -> Seq<IdModel>
    decreases v, n,
{
    if n == 0 || n > v@.len() {
        seq![]
    } else {
        ids_upto(v, (n - 1) as nat).push(id_model(v@[n - 1]))
    }
}

/// The models of all identities of `v`, in order.
pub open spec fn ids_model(v: Vec<TypeId>) -> Seq<IdModel> {
    ids_upto(v, v@.len())
}

pub proof fn lemma_ids_upto(v: Vec<TypeId>, n: nat)
    requires
        n <= v@.len(),
    ensures
        ids_upto(v, n).len() == n,
        forall|i: int| 0 <= i < n ==> #[trigger] ids_upto(v, n)[i] == id_model(v@[i]),
    decreases n,
{
    if n > 0 {
        lemma_ids_upto(v, (n - 1) as nat);
    }
}

pub proof fn lemma_ids_model(v: Vec<TypeId>)
    ensures
        ids_model(v).len() == v@.len(),
        forall|i: int| 0 <= i < v@.len() ==> #[trigger] ids_model(v)[i] == id_model(v@[i]),
{
    lemma_ids_upto(v, v@.len());
}

impl View for TypeId {
    type V = IdModel;

    open spec fn view(&self) -> IdModel {
        id_model(*self)
    }
}

/// The segments of the well-known namespace of prelude types.
pub open spec fn prelude_model() -> Seq<Seq<char>> {
    seq![seq!['p', 'r', 'e', 'l', 'u', 'd', 'e']]
}

fn ids_eq(a: &Vec<TypeId>, b: &Vec<TypeId>) -> (r: bool)
    ensures
        r == (ids_model(*a) == ids_model(*b)),
    decreases a, 1nat,
{
    proof {
        lemma_ids_model(*a);
        lemma_ids_model(*b);
    }
    if a.len() != b.len() {
        return false;
    }
    let mut i: usize = 0;
    while i < a.len()
        invariant
            a@.len() == b@.len(),
            0 <= i <= a@.len(),
            ids_model(*a).len() == a@.len(),
            ids_model(*b).len() == b@.len(),
            forall|j: int| 0 <= j < a@.len() ==> #[trigger] ids_model(*a)[j] == id_model(a@[j]),
            forall|j: int| 0 <= j < b@.len() ==> #[trigger] ids_model(*b)[j] == id_model(b@[j]),
            forall|j: int| 0 <= j < i ==> id_model(#[trigger] a@[j]) == id_model(b@[j]),
        decreases a@.len() - i,
    {
        proof {
            assert(decreases_to!(a => a[i as int]));
        }
        if !id_eq(&a[i], &b[i]) {
            assert(ids_model(*a)[i as int] != ids_model(*b)[i as int]);
            return false;
        }
        i = i + 1;
    }
    assert(ids_model(*a) =~= ids_model(*b));
    true
}

/// Structural equality of two identities.
pub fn id_eq(a: &TypeId, b: &TypeId) -> (r: bool)
    ensures
        r == (a@ == b@),
    decreases a, 0nat,
{
    match (a, b) {
        (TypeId::Primitive(p), TypeId::Primitive(q)) => *p == *q,
        (TypeId::Array(n, e), TypeId::Array(m, f)) => *n == *m && id_eq(e, f),
        (TypeId::Slice(e), TypeId::Slice(f)) => id_eq(e, f),
        (TypeId::Tuple(v), TypeId::Tuple(w)) => ids_eq(v, w),
        (TypeId::Custom(n, ns, v), TypeId::Custom(m, ms, w)) => {
            let same_name = *n == *m;
            same_name && ns.same_as(ms) && ids_eq(v, w)
        },
        _ => false,
    }
}

fn ids_copy(a: &Vec<TypeId>) -> (r: Vec<TypeId>)
    ensures
        ids_model(r) == ids_model(*a),
    decreases a, 1nat,
{
    proof {
        lemma_ids_model(*a);
    }
    let mut out: Vec<TypeId> = Vec::new();
    let mut i: usize = 0;
    while i < a.len()
        invariant
            0 <= i <= a@.len(),
            out@.len() == i,
            ids_model(*a).len() == a@.len(),
            forall|j: int| 0 <= j < a@.len() ==> #[trigger] ids_model(*a)[j] == id_model(a@[j]),
            forall|j: int| 0 <= j < i ==> id_model(#[trigger] out@[j]) == id_model(a@[j]),
        decreases a@.len() - i,
    {
        proof {
            assert(decreases_to!(a => a[i as int]));
        }
        let c = id_copy(&a[i]);
        out.push(c);
        i = i + 1;
    }
    proof {
        lemma_ids_model(out);
    }
    assert(ids_model(out) =~= ids_model(*a));
    out
}

/// A copy of an identity, equal to it in every part.
pub fn id_copy(a: &TypeId) -> (r: TypeId)
    ensures
        r@ == a@,
    decreases a, 0nat,
{
    match a {
        TypeId::Primitive(p) => TypeId::Primitive(*p),
        TypeId::Array(n, e) => TypeId::Array(*n, Box::new(id_copy(e))),
        TypeId::Slice(e) => TypeId::Slice(Box::new(id_copy(e))),
        TypeId::Tuple(v) => TypeId::Tuple(ids_copy(v)),
        TypeId::Custom(n, ns, v) => TypeId::Custom(n.clone(), ns.copy(), ids_copy(v)),
    }
}

impl Clone for TypeId {
    fn clone(&self) -> (r: TypeId)
        ensures
            r@ == self@,
    {
        id_copy(self)
    }
}

impl PartialEq for TypeId {
    fn eq(&self, other: &TypeId) -> (r: bool) {
        id_eq(self, other)
    }
}

impl vstd::std_specs::cmp::PartialEqSpecImpl for TypeId {
    open spec fn obeys_eq_spec() -> bool {
        true
    }

    open spec fn eq_spec(&self, other: &TypeId) -> bool {
        self@ == other@
    }
}


/// Builder of an array identity.
#[derive(Clone, Debug)]
pub struct TypeIdArray {
    pub len: u64,
    pub type_param: TypeId,
}

impl TypeIdArray {
    pub fn new(len: u64, type_param: TypeId) -> (r: TypeIdArray)
        ensures
            r.len == len,
            r.type_param == type_param,
    {
        TypeIdArray { len, type_param }
    }
}

/// Builder of a slice identity.
#[derive(Clone, Debug)]
pub struct TypeIdSlice {
    pub type_param: TypeId,
}

impl TypeIdSlice {
    pub fn new(type_param: TypeId) -> (r: TypeIdSlice)
        ensures
            r.type_param == type_param,
    {
        TypeIdSlice { type_param }
    }
}

/// Builder of a tuple identity.
#[derive(Clone, Debug)]
pub struct TypeIdTuple {
    pub type_params: Vec<TypeId>,
}

impl TypeIdTuple {
    pub fn new(type_params: Vec<TypeId>) -> (r: TypeIdTuple)
        ensures
            r.type_params == type_params,
    {
        TypeIdTuple { type_params }
    }
}

/// Builder of the identity of a named type.
#[derive(Clone, Debug)]
pub struct TypeIdCustom {
    pub name: String,
    pub namespace: Namespace,
    pub type_params: Vec<TypeId>,
}

impl TypeIdCustom {
    pub fn new(name: &str, namespace: Namespace, type_params: Vec<TypeId>) -> (r: TypeIdCustom)
        ensures
            r.name@ == name@,
            r.namespace == namespace,
            r.type_params == type_params,
    {
        TypeIdCustom { name: name.to_owned(), namespace, type_params }
    }
}

impl From<TypeIdPrimitive> for TypeId {
    fn from(p: TypeIdPrimitive) -> (r: TypeId) {
        TypeId::Primitive(p)
    }
}

impl vstd::std_specs::convert::FromSpecImpl<TypeIdPrimitive> for TypeId {
    open spec fn obeys_from_spec() -> bool {
        true
    }

    open spec fn from_spec(p: TypeIdPrimitive) -> TypeId {
        TypeId::Primitive(p)
    }
}

impl From<TypeIdArray> for TypeId {
    fn from(a: TypeIdArray) -> (r: TypeId) {
        TypeId::Array(a.len, Box::new(a.type_param))
    }
}

impl vstd::std_specs::convert::FromSpecImpl<TypeIdArray> for TypeId {
    open spec fn obeys_from_spec() -> bool {
        true
    }

    open spec fn from_spec(a: TypeIdArray) -> TypeId {
        TypeId::Array(a.len, Box::new(a.type_param))
    }
}

impl From<TypeIdSlice> for TypeId {
    fn from(s: TypeIdSlice) -> (r: TypeId) {
        TypeId::Slice(Box::new(s.type_param))
    }
}

impl vstd::std_specs::convert::FromSpecImpl<TypeIdSlice> for TypeId {
    open spec fn obeys_from_spec() -> bool {
        true
    }

    open spec fn from_spec(s: TypeIdSlice) -> TypeId {
        TypeId::Slice(Box::new(s.type_param))
    }
}

impl From<TypeIdTuple> for TypeId {
    fn from(t: TypeIdTuple) -> (r: TypeId) {
        TypeId::Tuple(t.type_params)
    }
}

impl vstd::std_specs::convert::FromSpecImpl<TypeIdTuple> for TypeId {
    open spec fn obeys_from_spec() -> bool {
        true
    }

    open spec fn from_spec(t: TypeIdTuple) -> TypeId {
        TypeId::Tuple(t.type_params)
    }
}

impl From<TypeIdCustom> for TypeId {
    fn from(c: TypeIdCustom) -> (r: TypeId) {
        TypeId::Custom(c.name, c.namespace, c.type_params)
    }
}

impl vstd::std_specs::convert::FromSpecImpl<TypeIdCustom> for TypeId {
    open spec fn obeys_from_spec() -> bool {
        true
    }

    open spec fn from_spec(c: TypeIdCustom) -> TypeId {
        TypeId::Custom(c.name, c.namespace, c.type_params)
    }
}

/// The identity capability: every describable type computes its own identity.
pub trait HasTypeId {
    /// The identity of this type. The default stands for impls written outside
    /// verified code, of which nothing is known.
    closed spec fn spec_type_id() -> IdModel {
        arbitrary()
    }

    fn type_id() -> (r: TypeId)
        ensures
            r@ == Self::spec_type_id(),
    ;
}

/// Whether the identity that `T` computes is `expected`.
pub fn assert_type_id<T: HasTypeId + ?Sized>(expected: TypeId) -> (r: bool)
    ensures
        r == (T::spec_type_id() == expected@),
{
    let actual = T::type_id();
    id_eq(&actual, &expected)
}

/// The identity of a named type of the prelude with the given parameters.
pub open spec fn prelude_id(name: Seq<char>, params: Seq<IdModel>) -> IdModel {
    IdModel::Custom(name, prelude_model(), params)
}

fn prelude_type_id(name: &str, type_params: Vec<TypeId>) -> (r: TypeId)
    ensures
        r@ == prelude_id(name@, ids_model(type_params)),
{
    TypeId::Custom(name.to_owned(), Namespace::prelude(), type_params)
}

impl HasTypeId for bool {
    open spec fn spec_type_id() -> IdModel {
        IdModel::Primitive(TypeIdPrimitive::Bool)
    }

    fn type_id() -> (r: TypeId) {
        TypeId::Primitive(TypeIdPrimitive::Bool)
    }
}

impl HasTypeId for char {
    open spec fn spec_type_id() -> IdModel {
        IdModel::Primitive(TypeIdPrimitive::Char)
    }

    fn type_id() -> (r: TypeId) {
        TypeId::Primitive(TypeIdPrimitive::Char)
    }
}

impl HasTypeId for str {
    open spec fn spec_type_id() -> IdModel {
        IdModel::Primitive(TypeIdPrimitive::Str)
    }

    fn type_id() -> (r: TypeId) {
        TypeId::Primitive(TypeIdPrimitive::Str)
    }
}

impl HasTypeId for String {
    open spec fn spec_type_id() -> IdModel {
        IdModel::Primitive(TypeIdPrimitive::Str)
    }

    fn type_id() -> (r: TypeId) {
        TypeId::Primitive(TypeIdPrimitive::Str)
    }
}

impl HasTypeId for u8 {
    open spec fn spec_type_id() -> IdModel {
        IdModel::Primitive(TypeIdPrimitive::U8)
    }

    fn type_id() -> (r: TypeId) {
        TypeId::Primitive(TypeIdPrimitive::U8)
    }
}

impl HasTypeId for u16 {
    open spec fn spec_type_id() -> IdModel {
        IdModel::Primitive(TypeIdPrimitive::U16)
    }

    fn type_id() -> (r: TypeId) {
        TypeId::Primitive(TypeIdPrimitive::U16)
    }
}

impl HasTypeId for u32 {
    open spec fn spec_type_id() -> IdModel {
        IdModel::Primitive(TypeIdPrimitive::U32)
    }

    fn type_id() -> (r: TypeId) {
        TypeId::Primitive(TypeIdPrimitive::U32)
    }
}

impl HasTypeId for u64 {
    open spec fn spec_type_id() -> IdModel {
        IdModel::Primitive(TypeIdPrimitive::U64)
    }

    fn type_id() -> (r: TypeId) {
        TypeId::Primitive(TypeIdPrimitive::U64)
    }
}

impl HasTypeId for u128 {
    open spec fn spec_type_id() -> IdModel {
        IdModel::Primitive(TypeIdPrimitive::U128)
    }

    fn type_id() -> (r: TypeId) {
        TypeId::Primitive(TypeIdPrimitive::U128)
    }
}

impl HasTypeId for i8 {
    open spec fn spec_type_id() -> IdModel {
        IdModel::Primitive(TypeIdPrimitive::I8)
    }

    fn type_id() -> (r: TypeId) {
        TypeId::Primitive(TypeIdPrimitive::I8)
    }
}

impl HasTypeId for i16 {
    open spec fn spec_type_id() -> IdModel {
        IdModel::Primitive(TypeIdPrimitive::I16)
    }

    fn type_id() -> (r: TypeId) {
        TypeId::Primitive(TypeIdPrimitive::I16)
    }
}

impl HasTypeId for i32 {
    open spec fn spec_type_id() -> IdModel {
        IdModel::Primitive(TypeIdPrimitive::I32)
    }

    fn type_id() -> (r: TypeId) {
        TypeId::Primitive(TypeIdPrimitive::I32)
    }
}

impl HasTypeId for i64 {
    open spec fn spec_type_id() -> IdModel {
        IdModel::Primitive(TypeIdPrimitive::I64)
    }

    fn type_id() -> (r: TypeId) {
        TypeId::Primitive(TypeIdPrimitive::I64)
    }
}

impl HasTypeId for i128 {
    open spec fn spec_type_id() -> IdModel {
        IdModel::Primitive(TypeIdPrimitive::I128)
    }

    fn type_id() -> (r: TypeId) {
        TypeId::Primitive(TypeIdPrimitive::I128)
    }
}

impl<T: HasTypeId + ?Sized> HasTypeId for &T {
    open spec fn spec_type_id() -> IdModel {
        T::spec_type_id()
    }

    fn type_id() -> (r: TypeId) {
        T::type_id()
    }
}

impl<T: HasTypeId + ?Sized> HasTypeId for Box<T> {
    open spec fn spec_type_id() -> IdModel {
        T::spec_type_id()
    }

    fn type_id() -> (r: TypeId) {
        T::type_id()
    }
}

impl<T: HasTypeId + ?Sized> HasTypeId for PhantomData<T> {
    open spec fn spec_type_id() -> IdModel {
        T::spec_type_id()
    }

    fn type_id() -> (r: TypeId) {
        T::type_id()
    }
}

impl<T: HasTypeId> HasTypeId for [T] {
    open spec fn spec_type_id() -> IdModel {
        IdModel::Slice(Box::new(T::spec_type_id()))
    }

    fn type_id() -> (r: TypeId) {
        TypeId::Slice(Box::new(T::type_id()))
    }
}

impl<T: HasTypeId, const N: usize> HasTypeId for [T; N] {
    open spec fn spec_type_id() -> IdModel {
        IdModel::Array(N as u64, Box::new(T::spec_type_id()))
    }

    fn type_id() -> (r: TypeId) {
        TypeId::Array(N as u64, Box::new(T::type_id()))
    }
}

impl<T: HasTypeId> HasTypeId for Vec<T> {
    open spec fn spec_type_id() -> IdModel {
        prelude_id(seq!['V', 'e', 'c'], seq![T::spec_type_id()])
    }

    fn type_id() -> (r: TypeId) {
        let params = vec![T::type_id()];
        proof {
            reveal_strlit("Vec");
            assert("Vec"@ =~= seq!['V', 'e', 'c']);
            lemma_ids_model(params);
            assert(ids_model(params) =~= seq![T::spec_type_id()]);
        }
        prelude_type_id("Vec", params)
    }
}

impl<T: HasTypeId> HasTypeId for Option<T> {
    open spec fn spec_type_id() -> IdModel {
        prelude_id(seq!['O', 'p', 't', 'i', 'o', 'n'], seq![T::spec_type_id()])
    }

    fn type_id() -> (r: TypeId) {
        let params = vec![T::type_id()];
        proof {
            reveal_strlit("Option");
            assert("Option"@ =~= seq!['O', 'p', 't', 'i', 'o', 'n']);
            lemma_ids_model(params);
            assert(ids_model(params) =~= seq![T::spec_type_id()]);
        }
        prelude_type_id("Option", params)
    }
}

impl<T: HasTypeId, E: HasTypeId> HasTypeId for Result<T, E> {
    open spec fn spec_type_id() -> IdModel {
        prelude_id(seq!['R', 'e', 's', 'u', 'l', 't'], seq![T::spec_type_id(), E::spec_type_id()])
    }

    fn type_id() -> (r: TypeId) {
        let params = vec![T::type_id(), E::type_id()];
        proof {
            reveal_strlit("Result");
            assert("Result"@ =~= seq!['R', 'e', 's', 'u', 'l', 't']);
            lemma_ids_model(params);
            assert(ids_model(params) =~= seq![T::spec_type_id(), E::spec_type_id()]);
        }
        prelude_type_id("Result", params)
    }
}

impl HasTypeId for () {
    open spec fn spec_type_id() -> IdModel {
        IdModel::Tuple(seq![])
    }

    fn type_id() -> (r: TypeId) {
        let params: Vec<TypeId> = Vec::new();
        proof {
            lemma_ids_model(params);
            assert(ids_model(params) =~= seq![]);
        }
        TypeId::Tuple(params)
    }
}

impl<A: HasTypeId> HasTypeId for (A,) {
    open spec fn spec_type_id() -> IdModel {
        IdModel::Tuple(seq![A::spec_type_id()])
    }

    fn type_id() -> (r: TypeId) {
        let params = vec![A::type_id()];
        proof {
            lemma_ids_model(params);
            assert(ids_model(params) =~= seq![A::spec_type_id()]);
        }
        TypeId::Tuple(params)
    }
}

impl<A: HasTypeId, B: HasTypeId> HasTypeId for (A, B) {
    open spec fn spec_type_id() -> IdModel {
        IdModel::Tuple(seq![A::spec_type_id(), B::spec_type_id()])
    }

    fn type_id() -> (r: TypeId) {
        let params = vec![A::type_id(), B::type_id()];
        proof {
            lemma_ids_model(params);
            assert(ids_model(params) =~= seq![A::spec_type_id(), B::spec_type_id()]);
        }
        TypeId::Tuple(params)
    }
}

impl<A: HasTypeId, B: HasTypeId, C: HasTypeId> HasTypeId for (A, B, C) {
    open spec fn spec_type_id() -> IdModel {
        IdModel::Tuple(seq![A::spec_type_id(), B::spec_type_id(), C::spec_type_id()])
    }

    fn type_id() -> (r: TypeId) {
        let params = vec![A::type_id(), B::type_id(), C::type_id()];
        proof {
            lemma_ids_model(params);
            assert(ids_model(params) =~= seq![
                A::spec_type_id(),
                B::spec_type_id(),
                C::spec_type_id(),
            ]);
        }
        TypeId::Tuple(params)
    }
}


/// Indirection carries no identity: a reference, a box or a marker of `T` is `T`,
/// and an owned string is a string slice.
pub proof fn lemma_indirection_transparent<T: HasTypeId + ?Sized>()
    ensures
        <&T as HasTypeId>::spec_type_id() == T::spec_type_id(),
        <Box<T> as HasTypeId>::spec_type_id() == T::spec_type_id(),
        <PhantomData<T> as HasTypeId>::spec_type_id() == T::spec_type_id(),
        <String as HasTypeId>::spec_type_id() == <str as HasTypeId>::spec_type_id(),
        <Box<String> as HasTypeId>::spec_type_id() == <&str as HasTypeId>::spec_type_id(),
{
}

/// Tuples are ordered: swapping two different components changes the identity;
/// the unit tuple differs from every one-component tuple.
pub proof fn lemma_tuple_order<A: HasTypeId, B: HasTypeId>()
    ensures
        A::spec_type_id() != B::spec_type_id() ==> <(A, B) as HasTypeId>::spec_type_id()
            != <(B, A) as HasTypeId>::spec_type_id(),
        <() as HasTypeId>::spec_type_id() != <(A,) as HasTypeId>::spec_type_id(),
{
    if A::spec_type_id() != B::spec_type_id() {
        let ab = <(A, B) as HasTypeId>::spec_type_id();
        let ba = <(B, A) as HasTypeId>::spec_type_id();
        assert(ab->Tuple_0[0] != ba->Tuple_0[0]);
    }
    assert(<() as HasTypeId>::spec_type_id()->Tuple_0.len() == 0);
    assert(<(A,) as HasTypeId>::spec_type_id()->Tuple_0.len() == 1);
}

/// An array is not a slice of the same element, and nested arrays compose.
pub proof fn lemma_array_slice<T: HasTypeId, const N: usize, const M: usize>()
    ensures
        <[T; N] as HasTypeId>::spec_type_id() != <[T] as HasTypeId>::spec_type_id(),
        <[[T; M]; N] as HasTypeId>::spec_type_id() == IdModel::Array(
            N as u64,
            Box::new(IdModel::Array(M as u64, Box::new(T::spec_type_id()))),
        ),
{
}

/// Instances of one generic type share its name and namespace, and differ
/// exactly where their type parameters differ.
pub proof fn lemma_generic_identity<A: HasTypeId, B: HasTypeId>()
    ensures
        <Option<A> as HasTypeId>::spec_type_id()->Custom_0 == <Option<
            B,
        > as HasTypeId>::spec_type_id()->Custom_0,
        <Option<A> as HasTypeId>::spec_type_id()->Custom_1 == <Option<
            B,
        > as HasTypeId>::spec_type_id()->Custom_1,
        (<Option<A> as HasTypeId>::spec_type_id() == <Option<B> as HasTypeId>::spec_type_id())
            <==> (A::spec_type_id() == B::spec_type_id()),
        (<Vec<A> as HasTypeId>::spec_type_id() == <Vec<B> as HasTypeId>::spec_type_id()) <==> (
        A::spec_type_id() == B::spec_type_id()),
{
    if <Option<A> as HasTypeId>::spec_type_id() == <Option<B> as HasTypeId>::spec_type_id() {
        assert(<Option<A> as HasTypeId>::spec_type_id()->Custom_2[0] == A::spec_type_id());
    }
    if <Vec<A> as HasTypeId>::spec_type_id() == <Vec<B> as HasTypeId>::spec_type_id() {
        assert(<Vec<A> as HasTypeId>::spec_type_id()->Custom_2[0] == A::spec_type_id());
    }
    if A::spec_type_id() == B::spec_type_id() {
        assert(seq![A::spec_type_id()] =~= seq![B::spec_type_id()]);
    }
}

} // verus!
