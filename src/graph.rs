//! Type graphs: the bodies of the named types of a program, keyed by identity.
use vstd::prelude::*;
use crate::type_def::{fields_model, DefModel, Field, FieldModel, HasTypeDef, TypeDef};
use crate::type_id::{id_copy, id_eq, ids_model, lemma_ids_model, HasTypeId, IdModel, TypeId};

verus! {

/// Whether every named type that occurs in `id` is one of `keys`.
pub open spec fn covered(id: IdModel, keys: Set<IdModel>) -> bool
    decreases id, 0nat,
{
    match id {
        IdModel::Primitive(_) => true,
        IdModel::Array(_, e) => covered(*e, keys),
        IdModel::Slice(e) => covered(*e, keys),
        IdModel::Tuple(v) => covered_upto(v, v.len(), keys),
        IdModel::Custom(_, _, v) => keys.contains(id) && covered_upto(v, v.len(), keys),
    }
}

/// Whether the first `n` identities of `v` are covered.
pub open spec fn covered_upto(v: Seq<IdModel>, n: nat, keys: Set<IdModel>) -> bool
    decreases v, n,
{
    if n == 0 || n > v.len() {
        true
    } else {
        covered_upto(v, (n - 1) as nat, keys) && covered(v[n - 1], keys)
    }
}

proof fn lemma_covered_upto(v: Seq<IdModel>, n: nat, keys: Set<IdModel>)
    requires
        n <= v.len(),
    ensures
        covered_upto(v, n, keys) == forall|i: int| 0 <= i < n ==> covered(#[trigger] v[i], keys),
    decreases n,
{
    if n > 0 {
        lemma_covered_upto(v, (n - 1) as nat, keys);
    }
}

/// The components of an identity are covered where it is.
pub proof fn lemma_covered_parts(id: IdModel, keys: Set<IdModel>)
    ensures
        id is Tuple ==> (covered(id, keys) == forall|i: int|
            0 <= i < id->Tuple_0.len() ==> covered(#[trigger] id->Tuple_0[i], keys)),
        id is Custom ==> (covered(id, keys) == (keys.contains(id) && forall|i: int|
            0 <= i < id->Custom_2.len() ==> covered(#[trigger] id->Custom_2[i], keys))),
{
    match id {
        IdModel::Tuple(v) => lemma_covered_upto(v, v.len(), keys),
        IdModel::Custom(_, _, v) => lemma_covered_upto(v, v.len(), keys),
        _ => {},
    }
}

/// Whether `s` is an immediate component of `id`: an element type or a type parameter.
pub open spec fn id_has_sub(id: IdModel, s: IdModel) -> bool {
    match id {
        IdModel::Primitive(_) => false,
        IdModel::Array(_, e) => *e == s,
        IdModel::Slice(e) => *e == s,
        IdModel::Tuple(v) => v.contains(s),
        IdModel::Custom(_, _, v) => v.contains(s),
    }
}

/// Whether some field in `fs` has type `s`.
pub open spec fn fields_have(fs: Seq<FieldModel>, s: IdModel) -> bool {
    exists|j: int| 0 <= j < fs.len() && (#[trigger] fs[j]).ty == s
}

/// Whether `s` is the type of a field of `d`, or of a field of one of its variants.
pub open spec fn def_has_sub(d: DefModel, s: IdModel) -> bool {
    match d {
        DefModel::Struct(fs) => fields_have(fs, s),
        DefModel::TupleStruct(fs) => fields_have(fs, s),
        DefModel::Enum(vs) => exists|i: int| 0 <= i < vs.len() && fields_have(#[trigger] vs[i].fields, s),
        _ => false,
    }
}

/// Whether `s` is a subtype that a type with identity `id` and body `d` refers to.
pub open spec fn has_sub(id: IdModel, d: DefModel, s: IdModel) -> bool {
    id_has_sub(id, s) || def_has_sub(d, s)
}

/// The definition that a registration stores for `id`: the body that the graph
/// holds for a named type, `Builtin` for any other.
pub open spec fn def_for(g: Map<IdModel, DefModel>, id: IdModel) -> DefModel {
    match id {
        IdModel::Custom(_, _, _) => g[id],
        _ => DefModel::Builtin,
    }
}

/// Whether every named type that the graph refers to is described in it.
pub open spec fn graph_closed(g: Map<IdModel, DefModel>) -> bool {
    &&& forall|k: IdModel| #[trigger] g.contains_key(k) ==> covered(k, g.dom())
    &&& forall|k: IdModel, s: IdModel|
        g.contains_key(k) && #[trigger] def_has_sub(g[k], s) ==> covered(s, g.dom())
}

/// The descriptions of the named types of a program: identity to body.
pub struct TypeGraph {
    ids: Vec<TypeId>,
    defs: Vec<TypeDef>,
    map: Ghost<Map<IdModel, DefModel>>,
}

impl View for TypeGraph {
    type V = Map<IdModel, DefModel>;

    closed spec fn view(&self) -> Map<IdModel, DefModel> {
        self.map@
    }
}

impl TypeGraph {
    pub closed spec fn wf(&self) -> bool {
        &&& self.ids@.len() == self.defs@.len()
        &&& self.map@.dom().finite()
        &&& forall|i: int|
            0 <= i < self.ids@.len() ==> self.map@.contains_key(#[trigger] self.ids@[i]@)
                && self.map@[self.ids@[i]@] == self.defs@[i]@
        &&& forall|k: IdModel| #[trigger]
            self.map@.contains_key(k) ==> exists|i: int| 0 <= i < self.ids@.len() && self.ids@[i]@ == k
    }

    /// An empty graph.
    pub fn new() -> (r: TypeGraph)
        ensures
            r.wf(),
            r@ == Map::<IdModel, DefModel>::empty(),
    {
        TypeGraph { ids: Vec::new(), defs: Vec::new(), map: Ghost(Map::empty()) }
    }

    /// The index in the graph's lists where `id` is described.
    fn find(&self, id: &TypeId) -> (r: Option<usize>)
        requires
            self.wf(),
        ensures
            r is None <==> !self@.contains_key(id@),
            r matches Some(i) ==> i < self.ids@.len() && self.ids@[i as int]@ == id@,
    {
        let mut i: usize = 0;
        while i < self.ids.len()
            invariant
                self.wf(),
                0 <= i <= self.ids@.len(),
                forall|j: int| 0 <= j < i ==> (#[trigger] self.ids@[j])@ != id@,
            decreases self.ids@.len() - i,
        {
            if id_eq(&self.ids[i], id) {
                return Some(i);
            }
            i = i + 1;
        }
        None
    }

    /// A well-formed graph describes finitely many types.
    pub proof fn lemma_finite(&self)
        requires
            self.wf(),
        ensures
            self@.dom().finite(),
    {
    }

    /// The body that describes `id`, where there is one.
    pub fn def_of(&self, id: &TypeId) -> (r: Option<&TypeDef>)
        requires
            self.wf(),
        ensures
            r is Some <==> self@.contains_key(id@),
            r matches Some(d) ==> d@ == self@[id@],
    {
        match self.find(id) {
            Some(k) => Some(&self.defs[k]),
            None => None,
        }
    }

    /// Whether `id` is described.
    pub fn contains(&self, id: &TypeId) -> (r: bool)
        requires
            self.wf(),
        ensures
            r == self@.contains_key(id@),
    {
        self.find(id).is_some()
    }

    /// Describes `id` by `def`; returns false, changing nothing, where `id` is
    /// described already.
    pub fn insert(&mut self, id: TypeId, def: TypeDef) -> (r: bool)
        requires
            old(self).wf(),
        ensures
            final(self).wf(),
            r == !old(self)@.contains_key(id@),
            r ==> final(self)@ == old(self)@.insert(id@, def@),
            !r ==> final(self)@ == old(self)@,
    {
        if self.find(&id).is_some() {
            return false;
        }
        let ghost k = id@;
        let ghost d = def@;
        self.ids.push(id);
        self.defs.push(def);
        self.map = Ghost(self.map@.insert(k, d));
        assert forall|k2: IdModel| #[trigger] self.map@.contains_key(k2) implies exists|i: int|
            0 <= i < self.ids@.len() && self.ids@[i]@ == k2 by {
            if k2 != k {
                let i = choose|i: int| 0 <= i < old(self).ids@.len() && old(self).ids@[i]@ == k2;
                assert(self.ids@[i] == old(self).ids@[i]);
            } else {
                assert(self.ids@[self.ids@.len() - 1]@ == k);
            }
        }
        true
    }

    /// Describes the type `T` by its own identity and body.
    pub fn insert_type<T: HasTypeId + HasTypeDef + ?Sized>(&mut self) -> (r: bool)
        requires
            old(self).wf(),
        ensures
            final(self).wf(),
            r == !old(self)@.contains_key(T::spec_type_id()),
            r ==> final(self)@ == old(self)@.insert(T::spec_type_id(), T::spec_type_def()),
            !r ==> final(self)@ == old(self)@,
    {
        self.insert(T::type_id(), T::type_def())
    }
}


/// Immediate components of a covered identity are covered.
pub proof fn lemma_covered_sub(id: IdModel, keys: Set<IdModel>, s: IdModel)
    requires
        covered(id, keys),
        id_has_sub(id, s),
    ensures
        covered(s, keys),
{
    lemma_covered_parts(id, keys);
    match id {
        IdModel::Tuple(v) => {
            let k = choose|k: int| 0 <= k < v.len() && v[k] == s;
        },
        IdModel::Custom(_, _, v) => {
            let k = choose|k: int| 0 <= k < v.len() && v[k] == s;
        },
        _ => {},
    }
}


pub open spec fn ids_of(v: Seq<TypeId>) -> Seq<IdModel> {
    v.map_values(|t: TypeId| t@)
}

pub open spec fn field_types(fs: Seq<FieldModel>) -> Seq<IdModel> {
    fs.map_values(|f: FieldModel| f.ty)
}

fn push_ids(out: &mut Vec<TypeId>, v: &Vec<TypeId>)
    ensures
        ids_of(final(out)@) == ids_of(old(out)@) + ids_model(*v),
{
    proof {
        lemma_ids_model(*v);
    }
    let ghost start = ids_of(out@);
    let mut i: usize = 0;
    while i < v.len()
        invariant
            0 <= i <= v@.len(),
            ids_model(*v).len() == v@.len(),
            forall|j: int| 0 <= j < v@.len() ==> #[trigger] ids_model(*v)[j] == v@[j]@,
            ids_of(out@) == start + ids_model(*v).subrange(0, i as int),
        decreases v@.len() - i,
    {
        let ghost prev = ids_of(out@);
        let c = id_copy(&v[i]);
        out.push(c);
        assert(ids_of(out@) =~= prev.push(c@));
        i = i + 1;
        assert(ids_of(out@) =~= start + ids_model(*v).subrange(0, i as int));
    }
    assert(ids_model(*v).subrange(0, i as int) =~= ids_model(*v));
}

fn push_field_types(out: &mut Vec<TypeId>, fs: &Vec<Field>)
    ensures
        ids_of(final(out)@) == ids_of(old(out)@) + field_types(fields_model(fs@)),
{
    let ghost start = ids_of(out@);
    let mut i: usize = 0;
    while i < fs.len()
        invariant
            0 <= i <= fs@.len(),
            ids_of(out@) == start + field_types(fields_model(fs@)).subrange(0, i as int),
        decreases fs@.len() - i,
    {
        let ghost prev = ids_of(out@);
        let c = id_copy(&fs[i].ty);
        out.push(c);
        assert(ids_of(out@) =~= prev.push(c@));
        i = i + 1;
        assert(ids_of(out@) =~= start + field_types(fields_model(fs@)).subrange(0, i as int));
    }
    assert(field_types(fields_model(fs@)).subrange(0, i as int) =~= field_types(fields_model(fs@)));
}

proof fn lemma_concat_contains(a: Seq<IdModel>, b: Seq<IdModel>, s: IdModel)
    ensures
        (a + b).contains(s) <==> a.contains(s) || b.contains(s),
{
    if (a + b).contains(s) {
        let k = choose|k: int| 0 <= k < (a + b).len() && (a + b)[k] == s;
        if k < a.len() {
            assert(a[k] == s);
        } else {
            assert(b[k - a.len()] == s);
        }
    }
    if a.contains(s) {
        let k = choose|k: int| 0 <= k < a.len() && a[k] == s;
        assert((a + b)[k] == s);
    }
    if b.contains(s) {
        let k = choose|k: int| 0 <= k < b.len() && b[k] == s;
        assert((a + b)[k + a.len()] == s);
    }
}

proof fn lemma_field_types(fs: Seq<FieldModel>, s: IdModel)
    ensures
        field_types(fs).contains(s) <==> fields_have(fs, s),
{
    if fields_have(fs, s) {
        let j = choose|j: int| 0 <= j < fs.len() && (#[trigger] fs[j]).ty == s;
        assert(field_types(fs)[j] == s);
    }
}

/// Every subtype that a type with identity `id` and body `def` refers to.
pub fn sub_ids(id: &TypeId, def: &TypeDef) -> (r: Vec<TypeId>)
    ensures
        forall|s: IdModel| #[trigger] ids_of(r@).contains(s) <==> has_sub(id@, def@, s),
        def@ == DefModel::Builtin ==> forall|s: IdModel|
            #[trigger] ids_of(r@).contains(s) ==> id_has_sub(id@, s),
{
    let mut out: Vec<TypeId> = Vec::new();
    match id {
        TypeId::Array(_, e) => {
            out.push(id_copy(e));
        },
        TypeId::Slice(e) => {
            out.push(id_copy(e));
        },
        TypeId::Tuple(v) => {
            push_ids(&mut out, v);
        },
        TypeId::Custom(_, _, v) => {
            push_ids(&mut out, v);
        },
        TypeId::Primitive(_) => {},
    }
    let ghost comps = ids_of(out@);
    assert forall|s: IdModel| comps.contains(s) <==> id_has_sub(id@, s) by {
        match id {
            TypeId::Array(_, e) => {
                if id_has_sub(id@, s) {
                    assert(comps[0] == s);
                }
            },
            TypeId::Slice(e) => {
                if id_has_sub(id@, s) {
                    assert(comps[0] == s);
                }
            },
            TypeId::Tuple(v) => {
                assert(comps =~= ids_model(*v));
            },
            TypeId::Custom(_, _, v) => {
                assert(comps =~= ids_model(*v));
            },
            TypeId::Primitive(_) => {
                assert(comps.len() == 0);
            },
        }
    }
    match def {
        TypeDef::Struct(fs) => {
            push_field_types(&mut out, fs);
            assert forall|s: IdModel| #[trigger] ids_of(out@).contains(s) <==> has_sub(id@, def@, s) by {
                lemma_concat_contains(comps, field_types(fields_model(fs@)), s);
                lemma_field_types(fields_model(fs@), s);
            }
        },
        TypeDef::TupleStruct(fs) => {
            push_field_types(&mut out, fs);
            assert forall|s: IdModel| #[trigger] ids_of(out@).contains(s) <==> has_sub(id@, def@, s) by {
                lemma_concat_contains(comps, field_types(fields_model(fs@)), s);
                lemma_field_types(fields_model(fs@), s);
            }
        },
        TypeDef::Enum(vs) => {
            let ghost vms = def@->Enum_0;
            let mut i: usize = 0;
            while i < vs.len()
                invariant
                    0 <= i <= vs@.len(),
                    vms.len() == vs@.len(),
                    forall|k: int| 0 <= k < vs@.len() ==> #[trigger] vms[k] == vs@[k]@,
                    forall|s: IdModel| #[trigger]
                        ids_of(out@).contains(s) <==> comps.contains(s) || exists|k: int|
                            0 <= k < i && fields_have(#[trigger] vms[k].fields, s),
                decreases vs@.len() - i,
            {
                let ghost before = ids_of(out@);
                push_field_types(&mut out, &vs[i].fields);
                assert forall|s: IdModel| #[trigger]
                    ids_of(out@).contains(s) <==> comps.contains(s) || exists|k: int|
                        0 <= k < i + 1 && fields_have(#[trigger] vms[k].fields, s) by {
                    lemma_concat_contains(before, field_types(vms[i as int].fields), s);
                    lemma_field_types(vms[i as int].fields, s);
                }
                i = i + 1;
            }
        },
        _ => {},
    }
    out
}


pub open spec fn entry_closed(g: Map<IdModel, DefModel>, key: IdModel, d: DefModel) -> bool {
    &&& covered(key, g.dom())
    &&& forall|s: IdModel| #[trigger] def_has_sub(d, s) ==> covered(s, g.dom())
}

impl TypeGraph {
    /// Whether every named type that occurs in `id` is described.
    pub fn covers(&self, id: &TypeId) -> (r: bool)
        requires
            self.wf(),
        ensures
            r == covered(id@, self@.dom()),
        decreases id,
    {
        match id {
            TypeId::Primitive(_) => true,
            TypeId::Array(_, e) => {
                let r = self.covers(e);
                assert(r == covered(id@, self@.dom()));
                r
            },
            TypeId::Slice(e) => {
                let r = self.covers(e);
                assert(r == covered(id@, self@.dom()));
                r
            },
            TypeId::Tuple(v) => {
                proof {
                    lemma_ids_model(*v);
                }
                let r = self.covers_all(v);
                proof {
                    lemma_covered_parts(id@, self@.dom());
                    lemma_covered_parts(IdModel::Tuple(ids_model(*v)), self@.dom());
                }
                r
            },
            TypeId::Custom(_, _, v) => {
                proof {
                    lemma_ids_model(*v);
                }
                let known = self.contains(id);
                let r = known && self.covers_all(v);
                proof {
                    lemma_covered_parts(id@, self@.dom());
                    lemma_covered_parts(IdModel::Tuple(ids_model(*v)), self@.dom());
                }
                r
            },
        }
    }

    fn covers_all(&self, v: &Vec<TypeId>) -> (r: bool)
        requires
            self.wf(),
        ensures
            r == covered(IdModel::Tuple(ids_model(*v)), self@.dom()),
        decreases v,
    {
        proof {
            lemma_ids_model(*v);
        }
        let mut i: usize = 0;
        while i < v.len()
            invariant
                self.wf(),
                0 <= i <= v@.len(),
                ids_model(*v).len() == v@.len(),
                forall|j: int| 0 <= j < v@.len() ==> #[trigger] ids_model(*v)[j] == v@[j]@,
                forall|j: int| 0 <= j < i ==> covered(#[trigger] ids_model(*v)[j], self@.dom()),
            decreases v@.len() - i,
        {
            proof {
                assert(decreases_to!(v => v[i as int]));
            }
            if !self.covers(&v[i]) {
                proof {
                    lemma_covered_parts(IdModel::Tuple(ids_model(*v)), self@.dom());
                    assert(!covered(ids_model(*v)[i as int], self@.dom()));
                }
                return false;
            }
            i = i + 1;
        }
        proof {
            lemma_covered_parts(IdModel::Tuple(ids_model(*v)), self@.dom());
        }
        true
    }

    /// Whether every named type that the graph refers to is described in it.
    pub fn is_closed(&self) -> (r: bool)
        requires
            self.wf(),
        ensures
            r == graph_closed(self@),
    {
        let mut k: usize = 0;
        while k < self.ids.len()
            invariant
                self.wf(),
                0 <= k <= self.ids@.len(),
                forall|j: int| 0 <= j < k ==> entry_closed(self@, #[trigger] self.ids@[j]@, self.defs@[j]@),
            decreases self.ids@.len() - k,
        {
            if !self.covers(&self.ids[k]) {
                return false;
            }
            let subs = sub_ids(&self.ids[k], &self.defs[k]);
            let mut i: usize = 0;
            while i < subs.len()
                invariant
                    self.wf(),
                    0 <= k < self.ids@.len(),
                    covered(self.ids@[k as int]@, self@.dom()),
                    0 <= i <= subs@.len(),
                    forall|s: IdModel| #[trigger]
                        ids_of(subs@).contains(s) <==> has_sub(self.ids@[k as int]@, self.defs@[k as int]@, s),
                    forall|j: int| 0 <= j < i ==> covered(#[trigger] subs@[j]@, self@.dom()),
                decreases subs@.len() - i,
            {
                if !self.covers(&subs[i]) {
                    proof {
                        let s = subs@[i as int]@;
                        assert(ids_of(subs@)[i as int] == s);
                        assert(ids_of(subs@).contains(s));
                        let key = self.ids@[k as int]@;
                        if id_has_sub(key, s) {
                            if covered(key, self@.dom()) {
                                lemma_covered_sub(key, self@.dom(), s);
                            }
                        }
                        assert(self@[key] == self.defs@[k as int]@);
                        assert(def_has_sub(self@[key], s));
                    }
                    return false;
                }
                i = i + 1;
            }
            assert forall|s: IdModel| def_has_sub(self.defs@[k as int]@, s) implies covered(
                s,
                self@.dom(),
            ) by {
                assert(ids_of(subs@).contains(s));
                let j = choose|j: int| 0 <= j < ids_of(subs@).len() && ids_of(subs@)[j] == s;
                assert(subs@[j]@ == s);
            }
            assert(entry_closed(self@, self.ids@[k as int]@, self.defs@[k as int]@));
            k = k + 1;
        }
        assert forall|key: IdModel, s: IdModel|
            self@.contains_key(key) && #[trigger] def_has_sub(self@[key], s) implies covered(
            s,
            self@.dom(),
        ) by {
            let j = choose|j: int| 0 <= j < self.ids@.len() && self.ids@[j]@ == key;
            assert(entry_closed(self@, self.ids@[j]@, self.defs@[j]@));
        }
        assert forall|key: IdModel| #[trigger] self@.contains_key(key) implies covered(
            key,
            self@.dom(),
        ) by {
            let j = choose|j: int| 0 <= j < self.ids@.len() && self.ids@[j]@ == key;
            assert(entry_closed(self@, self.ids@[j]@, self.defs@[j]@));
        }
        true
    }
}

} // verus!
