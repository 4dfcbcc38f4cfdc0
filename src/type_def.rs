//! One-level definitions (bodies) of types, referring to subtypes by identity only.
use vstd::prelude::*;
use crate::type_id::{id_copy, id_eq, HasTypeId, IdModel, TypeId};

verus! {

/// A field of a composite or of an enum variant: named or unnamed, with the
/// identity of its type.
#[derive(Clone, Debug)]
pub struct Field {
    pub name: Option<String>,
    pub ty: TypeId,
}

/// The mathematical value of a [`Field`].
pub struct FieldModel {
    pub name: Option<Seq<char>>,
    pub ty: IdModel,
}

pub open spec fn opt_name(n: Option<String>) -> Option<Seq<char>> {
    match n {
        Some(s) => Some(s@),
        None => None,
    }
}

impl View for Field {
    type V = FieldModel;

    open spec fn view(&self) -> FieldModel {
        FieldModel { name: opt_name(self.name), ty: self.ty@ }
    }
}

pub open spec fn fields_model(v: Seq<Field>) -> Seq<FieldModel> {
    v.map_values(|f: Field| f@)
}

/// A variant of an enum that carries no data, with its discriminant.
#[derive(Clone, Debug)]
pub struct ClikeEnumVariant {
    pub name: String,
    pub discriminant: u64,
}

/// The shape of the fields of an enum variant.
#[derive(Clone, Copy, Debug, PartialEq, Eq, Structural)]
pub enum VariantKind {
    Unit,
    Unnamed,
    Named,
}

/// A variant of an enum: its name, its shape and its fields.
#[derive(Clone, Debug)]
pub struct EnumVariant {
    pub name: String,
    pub kind: VariantKind,
    pub fields: Vec<Field>,
}

/// The mathematical value of an [`EnumVariant`].
pub struct VariantModel {
    pub name: Seq<char>,
    pub kind: VariantKind,
    pub fields: Seq<FieldModel>,
}

impl View for EnumVariant {
    type V = VariantModel;

    open spec fn view(&self) -> VariantModel {
        VariantModel { name: self.name@, kind: self.kind, fields: fields_model(self.fields@) }
    }
}

/// The body of a type.
#[derive(Clone, Debug)]
pub enum TypeDef {
    /// A primitive, array, slice or tuple: its identity says all.
    Builtin,
    /// A composite with named fields.
    Struct(Vec<Field>),
    /// A composite with unnamed fields.
    TupleStruct(Vec<Field>),
    /// A composite without fields.
    UnitStruct,
    /// An enum whose variants carry no data.
    ClikeEnum(Vec<ClikeEnumVariant>),
    /// An enum whose variants may carry data.
    Enum(Vec<EnumVariant>),
}

/// The mathematical value of a [`TypeDef`].
pub enum DefModel {
    Builtin,
    Struct(Seq<FieldModel>),
    TupleStruct(Seq<FieldModel>),
    UnitStruct,
    ClikeEnum(Seq<(Seq<char>, u64)>),
    Enum(Seq<VariantModel>),
}

impl View for TypeDef {
    type V = DefModel;

    open spec fn view(&self) -> DefModel {
        match *self {
            TypeDef::Builtin => DefModel::Builtin,
            TypeDef::Struct(v) => DefModel::Struct(fields_model(v@)),
            TypeDef::TupleStruct(v) => DefModel::TupleStruct(fields_model(v@)),
            TypeDef::UnitStruct => DefModel::UnitStruct,
            TypeDef::ClikeEnum(v) => DefModel::ClikeEnum(
                v@.map_values(|c: ClikeEnumVariant| (c.name@, c.discriminant)),
            ),
            TypeDef::Enum(v) => DefModel::Enum(v@.map_values(|e: EnumVariant| e@)),
        }
    }
}

impl Field {
    /// A named field of type `ty`.
    pub fn named(name: &str, ty: TypeId) -> (r: Field)
        ensures
            r@ == (FieldModel { name: Some(name@), ty: ty@ }),
    {
        Field { name: Some(name.to_owned()), ty }
    }

    /// An unnamed field of type `ty`.
    pub fn unnamed(ty: TypeId) -> (r: Field)
        ensures
            r@ == (FieldModel { name: None, ty: ty@ }),
    {
        Field { name: None, ty }
    }

    /// An unnamed field of type `T`.
    pub fn of<T: HasTypeId + ?Sized>() -> (r: Field)
        ensures
            r@ == (FieldModel { name: None, ty: T::spec_type_id() }),
    {
        Field { name: None, ty: T::type_id() }
    }
}

impl ClikeEnumVariant {
    pub fn new(name: &str, discriminant: u64) -> (r: ClikeEnumVariant)
        ensures
            r.name@ == name@,
            r.discriminant == discriminant,
    {
        ClikeEnumVariant { name: name.to_owned(), discriminant }
    }
}

impl EnumVariant {
    /// A variant without fields.
    pub fn unit(name: &str) -> (r: EnumVariant)
        ensures
            r@ == (VariantModel { name: name@, kind: VariantKind::Unit, fields: seq![] }),
    {
        let r = EnumVariant { name: name.to_owned(), kind: VariantKind::Unit, fields: Vec::new() };
        assert(r@.fields =~= seq![]);
        r
    }

    /// A variant with unnamed fields.
    pub fn unnamed(name: &str, fields: Vec<Field>) -> (r: EnumVariant)
        ensures
            r@ == (VariantModel {
                name: name@,
                kind: VariantKind::Unnamed,
                fields: fields_model(fields@),
            }),
    {
        EnumVariant { name: name.to_owned(), kind: VariantKind::Unnamed, fields }
    }

    /// A variant with named fields.
    pub fn named(name: &str, fields: Vec<Field>) -> (r: EnumVariant)
        ensures
            r@ == (VariantModel {
                name: name@,
                kind: VariantKind::Named,
                fields: fields_model(fields@),
            }),
    {
        EnumVariant { name: name.to_owned(), kind: VariantKind::Named, fields }
    }
}

impl TypeDef {
    /// A composite with the given named fields.
    pub fn new_struct(fields: Vec<Field>) -> (r: TypeDef)
        ensures
            r@ == DefModel::Struct(fields_model(fields@)),
    {
        TypeDef::Struct(fields)
    }

    /// A composite with the given unnamed fields; without any, a unit composite.
    pub fn new_tuple_struct(fields: Vec<Field>) -> (r: TypeDef)
        ensures
            fields@.len() == 0 ==> r@ == DefModel::UnitStruct,
            fields@.len() > 0 ==> r@ == DefModel::TupleStruct(fields_model(fields@)),
    {
        if fields.len() == 0 {
            TypeDef::UnitStruct
        } else {
            TypeDef::TupleStruct(fields)
        }
    }

    /// A composite without fields.
    pub fn unit_struct() -> (r: TypeDef)
        ensures
            r@ == DefModel::UnitStruct,
    {
        TypeDef::UnitStruct
    }

    /// An enum of variants without data.
    pub fn new_clike_enum(variants: Vec<ClikeEnumVariant>) -> (r: TypeDef)
        ensures
            r@ == DefModel::ClikeEnum(
                variants@.map_values(|c: ClikeEnumVariant| (c.name@, c.discriminant)),
            ),
    {
        TypeDef::ClikeEnum(variants)
    }

    /// An enum of variants each with its own shape.
    pub fn new_enum(variants: Vec<EnumVariant>) -> (r: TypeDef)
        ensures
            r@ == DefModel::Enum(variants@.map_values(|e: EnumVariant| e@)),
    {
        TypeDef::Enum(variants)
    }
}


fn opt_str_eq(a: &Option<String>, b: &Option<String>) -> (r: bool)
    ensures
        r == (opt_name(*a) == opt_name(*b)),
{
    match (a, b) {
        (Some(x), Some(y)) => *x == *y,
        (None, None) => true,
        _ => false,
    }
}

fn opt_str_copy(a: &Option<String>) -> (r: Option<String>)
    ensures
        opt_name(r) == opt_name(*a),
{
    match a {
        Some(x) => Some(x.clone()),
        None => None,
    }
}

fn fields_eq(a: &Vec<Field>, b: &Vec<Field>) -> (r: bool)
    ensures
        r == (fields_model(a@) == fields_model(b@)),
{
    if a.len() != b.len() {
        assert(fields_model(a@).len() != fields_model(b@).len());
        return false;
    }
    let mut i: usize = 0;
    while i < a.len()
        invariant
            a@.len() == b@.len(),
            0 <= i <= a@.len(),
            forall|j: int| 0 <= j < i ==> (#[trigger] a@[j])@ == b@[j]@,
        decreases a@.len() - i,
    {
        let same = opt_str_eq(&a[i].name, &b[i].name) && id_eq(&a[i].ty, &b[i].ty);
        if !same {
            assert(fields_model(a@)[i as int] != fields_model(b@)[i as int]);
            return false;
        }
        i = i + 1;
    }
    assert(fields_model(a@) =~= fields_model(b@));
    true
}

fn fields_copy(a: &Vec<Field>) -> (r: Vec<Field>)
    ensures
        fields_model(r@) == fields_model(a@),
{
    let mut out: Vec<Field> = Vec::new();
    let mut i: usize = 0;
    while i < a.len()
        invariant
            0 <= i <= a@.len(),
            out@.len() == i,
            forall|j: int| 0 <= j < i ==> (#[trigger] out@[j])@ == a@[j]@,
        decreases a@.len() - i,
    {
        out.push(Field { name: opt_str_copy(&a[i].name), ty: id_copy(&a[i].ty) });
        i = i + 1;
    }
    assert(fields_model(out@) =~= fields_model(a@));
    out
}

pub open spec fn clike_model(v: Seq<ClikeEnumVariant>) -> Seq<(Seq<char>, u64)> {
    v.map_values(|c: ClikeEnumVariant| (c.name@, c.discriminant))
}

pub open spec fn variants_model(v: Seq<EnumVariant>) -> Seq<VariantModel> {
    v.map_values(|e: EnumVariant| e@)
}

fn clike_eq(a: &Vec<ClikeEnumVariant>, b: &Vec<ClikeEnumVariant>) -> (r: bool)
    ensures
        r == (clike_model(a@) == clike_model(b@)),
{
    if a.len() != b.len() {
        assert(clike_model(a@).len() != clike_model(b@).len());
        return false;
    }
    let mut i: usize = 0;
    while i < a.len()
        invariant
            a@.len() == b@.len(),
            0 <= i <= a@.len(),
            forall|j: int| 0 <= j < i ==> clike_model(a@)[j] == #[trigger] clike_model(b@)[j],
        decreases a@.len() - i,
    {
        let same = a[i].name == b[i].name && a[i].discriminant == b[i].discriminant;
        if !same {
            assert(clike_model(a@)[i as int] != clike_model(b@)[i as int]);
            return false;
        }
        i = i + 1;
    }
    assert(clike_model(a@) =~= clike_model(b@));
    true
}

fn clike_copy(a: &Vec<ClikeEnumVariant>) -> (r: Vec<ClikeEnumVariant>)
    ensures
        clike_model(r@) == clike_model(a@),
{
    let mut out: Vec<ClikeEnumVariant> = Vec::new();
    let mut i: usize = 0;
    while i < a.len()
        invariant
            0 <= i <= a@.len(),
            out@.len() == i,
            forall|j: int| 0 <= j < i ==> clike_model(out@)[j] == #[trigger] clike_model(a@)[j],
        decreases a@.len() - i,
    {
        out.push(ClikeEnumVariant { name: a[i].name.clone(), discriminant: a[i].discriminant });
        i = i + 1;
    }
    assert(clike_model(out@) =~= clike_model(a@));
    out
}

fn variants_eq(a: &Vec<EnumVariant>, b: &Vec<EnumVariant>) -> (r: bool)
    ensures
        r == (variants_model(a@) == variants_model(b@)),
{
    if a.len() != b.len() {
        assert(variants_model(a@).len() != variants_model(b@).len());
        return false;
    }
    let mut i: usize = 0;
    while i < a.len()
        invariant
            a@.len() == b@.len(),
            0 <= i <= a@.len(),
            forall|j: int| 0 <= j < i ==> (#[trigger] a@[j])@ == b@[j]@,
        decreases a@.len() - i,
    {
        let same = a[i].name == b[i].name && a[i].kind == b[i].kind && fields_eq(
            &a[i].fields,
            &b[i].fields,
        );
        if !same {
            assert(variants_model(a@)[i as int] != variants_model(b@)[i as int]);
            return false;
        }
        i = i + 1;
    }
    assert(variants_model(a@) =~= variants_model(b@));
    true
}

fn variants_copy(a: &Vec<EnumVariant>) -> (r: Vec<EnumVariant>)
    ensures
        variants_model(r@) == variants_model(a@),
{
    let mut out: Vec<EnumVariant> = Vec::new();
    let mut i: usize = 0;
    while i < a.len()
        invariant
            0 <= i <= a@.len(),
            out@.len() == i,
            forall|j: int| 0 <= j < i ==> (#[trigger] out@[j])@ == a@[j]@,
        decreases a@.len() - i,
    {
        out.push(
            EnumVariant {
                name: a[i].name.clone(),
                kind: a[i].kind,
                fields: fields_copy(&a[i].fields),
            },
        );
        i = i + 1;
    }
    assert(variants_model(out@) =~= variants_model(a@));
    out
}

/// Structural equality of two definitions.
pub fn def_eq(a: &TypeDef, b: &TypeDef) -> (r: bool)
    ensures
        r == (a@ == b@),
{
    match (a, b) {
        (TypeDef::Builtin, TypeDef::Builtin) => true,
        (TypeDef::Struct(v), TypeDef::Struct(w)) => fields_eq(v, w),
        (TypeDef::TupleStruct(v), TypeDef::TupleStruct(w)) => fields_eq(v, w),
        (TypeDef::UnitStruct, TypeDef::UnitStruct) => true,
        (TypeDef::ClikeEnum(v), TypeDef::ClikeEnum(w)) => clike_eq(v, w),
        (TypeDef::Enum(v), TypeDef::Enum(w)) => variants_eq(v, w),
        _ => false,
    }
}

/// A copy of a definition, equal to it in every part.
pub fn def_copy(a: &TypeDef) -> (r: TypeDef)
    ensures
        r@ == a@,
{
    match a {
        TypeDef::Builtin => TypeDef::Builtin,
        TypeDef::Struct(v) => TypeDef::Struct(fields_copy(v)),
        TypeDef::TupleStruct(v) => TypeDef::TupleStruct(fields_copy(v)),
        TypeDef::UnitStruct => TypeDef::UnitStruct,
        TypeDef::ClikeEnum(v) => TypeDef::ClikeEnum(clike_copy(v)),
        TypeDef::Enum(v) => TypeDef::Enum(variants_copy(v)),
    }
}

/// The shape capability: every describable type gives its own one-level body.
pub trait HasTypeDef {
    /// The body of this type. The default stands for impls written outside
    /// verified code, of which nothing is known.
    closed spec fn spec_type_def() -> DefModel {
        arbitrary()
    }

    fn type_def() -> (r: TypeDef)
        ensures
            r@ == Self::spec_type_def(),
    ;
}

impl PartialEq for TypeDef {
    fn eq(&self, other: &TypeDef) -> (r: bool) {
        def_eq(self, other)
    }
}

impl vstd::std_specs::cmp::PartialEqSpecImpl for TypeDef {
    open spec fn obeys_eq_spec() -> bool {
        true
    }

    open spec fn eq_spec(&self, other: &TypeDef) -> bool {
        self@ == other@
    }
}


/// The discriminant of variant `i` of an enum without data, where `explicit[k]`
/// is the value written on variant `k`, if any: a written value stands; an
/// unwritten one is the previous discriminant plus one, and 0 for the first.
pub open spec fn discriminant_at(explicit: Seq<Option<u64>>, i: int) -> int
    decreases i,
{
    if i < 0 || i >= explicit.len() {
        0
    } else {
        match explicit[i] {
            Some(d) => d as int,
            None => if i == 0 {
                0
            } else {
                discriminant_at(explicit, i - 1) + 1
            },
        }
    }
}

/// The discriminants of the variants of an enum without data; `None` where one
/// of them does not fit in `u64`.
pub fn assign_discriminants(explicit: &Vec<Option<u64>>) -> (r: Option<Vec<u64>>)
    ensures
        r is Some <==> forall|i: int|
            0 <= i < explicit@.len() ==> #[trigger] discriminant_at(explicit@, i) <= u64::MAX,
        r matches Some(d) ==> d@.len() == explicit@.len() && forall|i: int|
            0 <= i < explicit@.len() ==> d@[i] as int == #[trigger] discriminant_at(explicit@, i),
{
    let mut out: Vec<u64> = Vec::new();
    let mut i: usize = 0;
    while i < explicit.len()
        invariant
            0 <= i <= explicit@.len(),
            out@.len() == i,
            forall|j: int| 0 <= j < i ==> out@[j] as int == #[trigger] discriminant_at(explicit@, j),
        decreases explicit@.len() - i,
    {
        let d: u64 = match explicit[i] {
            Some(d) => d,
            None => if i == 0 {
                0
            } else {
                let prev = out[i - 1];
                assert(prev as int == discriminant_at(explicit@, i - 1));
                if prev == u64::MAX {
                    assert(discriminant_at(explicit@, i as int) > u64::MAX);
                    return None;
                }
                prev + 1
            },
        };
        assert(d as int == discriminant_at(explicit@, i as int));
        out.push(d);
        i = i + 1;
    }
    Some(out)
}

impl TypeDef {
    /// An enum without data whose variant `k` is named `names[k]` and carries the
    /// discriminant that `explicit` gives it (see [`discriminant_at`]); `None`
    /// where a discriminant does not fit in `u64`.
    pub fn clike_enum_of(names: Vec<&str>, explicit: Vec<Option<u64>>) -> (r: Option<TypeDef>)
        requires
            names@.len() == explicit@.len(),
        ensures
            r is Some <==> forall|i: int|
                0 <= i < explicit@.len() ==> #[trigger] discriminant_at(explicit@, i) <= u64::MAX,
            r matches Some(d) ==> d@ == DefModel::ClikeEnum(
                Seq::new(
                    names@.len(),
                    |i: int| (names@[i]@, discriminant_at(explicit@, i) as u64),
                ),
            ),
    {
        let ds = match assign_discriminants(&explicit) {
            Some(ds) => ds,
            None => {
                return None;
            },
        };
        let mut variants: Vec<ClikeEnumVariant> = Vec::new();
        let mut i: usize = 0;
        while i < names.len()
            invariant
                0 <= i <= names@.len(),
                names@.len() == explicit@.len(),
                ds@.len() == explicit@.len(),
                forall|j: int|
                    0 <= j < explicit@.len() ==> ds@[j] as int == #[trigger] discriminant_at(
                        explicit@,
                        j,
                    ),
                variants@.len() == i,
                forall|j: int|
                    0 <= j < i ==> (#[trigger] variants@[j]).name@ == names@[j]@
                        && variants@[j].discriminant == discriminant_at(explicit@, j) as u64,
            decreases names@.len() - i,
        {
            variants.push(ClikeEnumVariant::new(names[i], ds[i]));
            i = i + 1;
        }
        let r = TypeDef::ClikeEnum(variants);
        assert(clike_model(variants@) =~= Seq::new(
            names@.len(),
            |i: int| (names@[i]@, discriminant_at(explicit@, i) as u64),
        ));
        Some(r)
    }
}

/// The body of `Option<T>`: a unit variant `None` and a variant `Some` with one
/// unnamed field of type `T`.
pub open spec fn option_def(t: IdModel) -> DefModel {
    DefModel::Enum(
        seq![
            VariantModel { name: seq!['N', 'o', 'n', 'e'], kind: VariantKind::Unit, fields: seq![] },
            VariantModel {
                name: seq!['S', 'o', 'm', 'e'],
                kind: VariantKind::Unnamed,
                fields: seq![FieldModel { name: None, ty: t }],
            },
        ],
    )
}

/// The body of `Result<T, E>`: variants `Ok` and `Err`, each with one unnamed field.
pub open spec fn result_def(t: IdModel, e: IdModel) -> DefModel {
    DefModel::Enum(
        seq![
            VariantModel {
                name: seq!['O', 'k'],
                kind: VariantKind::Unnamed,
                fields: seq![FieldModel { name: None, ty: t }],
            },
            VariantModel {
                name: seq!['E', 'r', 'r'],
                kind: VariantKind::Unnamed,
                fields: seq![FieldModel { name: None, ty: e }],
            },
        ],
    )
}

/// The body of `Vec<T>`: one named field `elems`, a slice of `T`.
pub open spec fn vec_def(t: IdModel) -> DefModel {
    DefModel::Struct(
        seq![
            FieldModel {
                name: Some(seq!['e', 'l', 'e', 'm', 's']),
                ty: IdModel::Slice(Box::new(t)),
            },
        ],
    )
}

impl<T: HasTypeId> HasTypeDef for Option<T> {
    open spec fn spec_type_def() -> DefModel {
        option_def(T::spec_type_id())
    }

    fn type_def() -> (r: TypeDef) {
        let none = EnumVariant::unit("None");
        let some = EnumVariant::unnamed("Some", vec![Field::of::<T>()]);
        proof {
            reveal_strlit("None");
            reveal_strlit("Some");
            assert("None"@ =~= seq!['N', 'o', 'n', 'e']);
            assert("Some"@ =~= seq!['S', 'o', 'm', 'e']);
        }
        let variants = vec![none, some];
        let r = TypeDef::Enum(variants);
        assert(fields_model(some.fields@) =~= seq![FieldModel { name: None, ty: T::spec_type_id() }]);
        assert(variants_model(variants@) =~= option_def(T::spec_type_id())->Enum_0);
        r
    }
}

impl<T: HasTypeId, E: HasTypeId> HasTypeDef for Result<T, E> {
    open spec fn spec_type_def() -> DefModel {
        result_def(T::spec_type_id(), E::spec_type_id())
    }

    fn type_def() -> (r: TypeDef) {
        let ok = EnumVariant::unnamed("Ok", vec![Field::of::<T>()]);
        let err = EnumVariant::unnamed("Err", vec![Field::of::<E>()]);
        proof {
            reveal_strlit("Ok");
            reveal_strlit("Err");
            assert("Ok"@ =~= seq!['O', 'k']);
            assert("Err"@ =~= seq!['E', 'r', 'r']);
        }
        let variants = vec![ok, err];
        let r = TypeDef::Enum(variants);
        assert(fields_model(ok.fields@) =~= seq![FieldModel { name: None, ty: T::spec_type_id() }]);
        assert(fields_model(err.fields@) =~= seq![FieldModel { name: None, ty: E::spec_type_id() }]);
        assert(variants_model(variants@) =~= result_def(
            T::spec_type_id(),
            E::spec_type_id(),
        )->Enum_0);
        r
    }
}

impl<T: HasTypeId> HasTypeDef for Vec<T> {
    open spec fn spec_type_def() -> DefModel {
        vec_def(T::spec_type_id())
    }

    fn type_def() -> (r: TypeDef) {
        let f = Field::named("elems", <[T] as HasTypeId>::type_id());
        proof {
            reveal_strlit("elems");
            assert("elems"@ =~= seq!['e', 'l', 'e', 'm', 's']);
        }
        let fields = vec![f];
        assert(fields_model(fields@) =~= vec_def(T::spec_type_id())->Struct_0);
        TypeDef::Struct(fields)
    }
}

} // verus!
