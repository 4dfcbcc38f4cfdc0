//! The deduplicating registry: a finite, indexed table of type definitions.
use vstd::prelude::*;
use crate::graph::{
    covered, def_for, def_has_sub, graph_closed, has_sub, id_has_sub, ids_of, lemma_covered_sub,
    sub_ids, TypeGraph,
};
use crate::type_def::{def_copy, DefModel, TypeDef};
use crate::type_id::{id_copy, id_eq, HasTypeId, IdModel, TypeId};

verus! {

pub open spec fn opt_def(d: Option<TypeDef>) -> Option<DefModel> {
    match d {
        Some(x) => Some(x@),
        None => None,
    }
}

/// The number of named types of the graph that are not registered yet.
pub open spec fn pending(g: Map<IdModel, DefModel>, ids: Seq<IdModel>) -> nat {
    g.dom().difference(ids.to_set()).len()
}

/// The deduplicating store of one registration session: identities with their
/// compact indices, and the definition at each index.
pub struct Registry {
    ids: Vec<TypeId>,
    defs: Vec<Option<TypeDef>>,
}

/// How a registry may change during a registration: entries are only added,
/// an entry that was there keeps its identity and its state, and every entry
/// added is complete: its definition is the one the graph gives and each of its
/// subtypes is registered.
pub open spec fn grows(
    g: Map<IdModel, DefModel>,
    ids0: Seq<IdModel>,
    defs0: Seq<Option<DefModel>>,
    ids1: Seq<IdModel>,
    defs1: Seq<Option<DefModel>>,
) -> bool {
    &&& ids0.len() <= ids1.len()
    &&& ids1.subrange(0, ids0.len() as int) == ids0
    &&& forall|i: int| 0 <= i < ids0.len() ==> #[trigger] defs1[i] == defs0[i]
    &&& forall|i: int|
        ids0.len() <= i < ids1.len() ==> #[trigger] defs1[i] == Some(def_for(g, ids1[i]))
    &&& forall|i: int, s: IdModel|
        ids0.len() <= i < ids1.len() && #[trigger] has_sub(ids1[i], def_for(g, ids1[i]), s)
            ==> ids1.contains(s)
}

impl Registry {
    /// The identities, by index.
    pub closed spec fn id_seq(&self) -> Seq<IdModel> {
        self.ids@.map_values(|t: TypeId| t@)
    }

    /// The definitions, by index: `None` for an index that is reserved only.
    pub closed spec fn def_seq(&self) -> Seq<Option<DefModel>> {
        self.defs@.map_values(|d: Option<TypeDef>| opt_def(d))
    }

    /// Each identity once, and a definition slot for each.
    pub open spec fn wf(&self) -> bool {
        &&& self.id_seq().len() == self.def_seq().len()
        &&& forall|i: int, j: int|
            0 <= i < j < self.id_seq().len() ==> #[trigger] self.id_seq()[i] != #[trigger] self.id_seq()[j]
    }

    /// Whether every index holds its definition.
    pub open spec fn complete(&self) -> bool {
        forall|i: int| 0 <= i < self.def_seq().len() ==> (#[trigger] self.def_seq()[i]) is Some
    }

    /// An empty registry.
    pub fn new() -> (r: Registry)
        ensures
            r.wf(),
            r.id_seq() == Seq::<IdModel>::empty(),
            r.def_seq() == Seq::<Option<DefModel>>::empty(),
    {
        let r = Registry { ids: Vec::new(), defs: Vec::new() };
        assert(r.id_seq() =~= Seq::<IdModel>::empty());
        assert(r.def_seq() =~= Seq::<Option<DefModel>>::empty());
        r
    }

    /// The number of registered types.
    pub fn len(&self) -> (r: usize)
        requires
            self.wf(),
        ensures
            r == self.id_seq().len(),
    {
        self.ids.len()
    }

    /// The index of `id`, where it is registered.
    pub fn index_of(&self, id: &TypeId) -> (r: Option<usize>)
        requires
            self.wf(),
        ensures
            r is None <==> !self.id_seq().contains(id@),
            r matches Some(i) ==> i < self.id_seq().len() && self.id_seq()[i as int] == id@,
    {
        let mut i: usize = 0;
        while i < self.ids.len()
            invariant
                self.wf(),
                0 <= i <= self.ids@.len(),
                forall|j: int| 0 <= j < i ==> self.id_seq()[j] != id@,
            decreases self.ids@.len() - i,
        {
            if id_eq(&self.ids[i], id) {
                assert(self.id_seq()[i as int] == id@);
                return Some(i);
            }
            i = i + 1;
        }
        None
    }

    /// The identity at index `i`.
    pub fn id_at(&self, i: usize) -> (r: &TypeId)
        requires
            self.wf(),
            i < self.id_seq().len(),
        ensures
            r@ == self.id_seq()[i as int],
    {
        &self.ids[i]
    }

    /// The definition at index `i`, or `None` where it is only reserved.
    pub fn def_at(&self, i: usize) -> (r: Option<&TypeDef>)
        requires
            self.wf(),
            i < self.id_seq().len(),
        ensures
            r matches Some(d) ==> self.def_seq()[i as int] == Some(d@),
            r is None ==> self.def_seq()[i as int] is None,
    {
        match &self.defs[i] {
            Some(d) => Some(d),
            None => None,
        }
    }
}

/// Whether the entries from `lo` to `hi` were reached from `root`: the first is
/// `root`, and each later one is a subtype of an entry before it in that range.
pub open spec fn rooted(
    g: Map<IdModel, DefModel>,
    ids: Seq<IdModel>,
    lo: int,
    hi: int,
    root: IdModel,
) -> bool {
    &&& hi > lo ==> ids[lo] == root
    &&& forall|i: int| lo < i < hi ==> #[trigger] has_parent(g, ids, lo, i)
}

/// Whether entry `i` is a subtype of an entry from `lo` on, before `i`.
pub open spec fn has_parent(g: Map<IdModel, DefModel>, ids: Seq<IdModel>, lo: int, i: int) -> bool {
    exists|j: int| lo <= j < i && #[trigger] has_sub(ids[j], def_for(g, ids[j]), ids[i])
}

proof fn lemma_rooted_extend(
    g: Map<IdModel, DefModel>,
    before: Seq<IdModel>,
    after: Seq<IdModel>,
    lo: int,
    root: IdModel,
    parent: int,
    s: IdModel,
)
    requires
        0 <= lo <= parent < before.len(),
        rooted(g, before, lo, before.len() as int, root),
        before.len() <= after.len(),
        after.subrange(0, before.len() as int) == before,
        rooted(g, after, before.len() as int, after.len() as int, s),
        has_sub(before[parent], def_for(g, before[parent]), s),
    ensures
        rooted(g, after, lo, after.len() as int, root),
{
    assert forall|a: int| 0 <= a < before.len() implies after[a] == before[a] by {
        assert(after.subrange(0, before.len() as int)[a] == after[a]);
    }
    assert forall|i: int| lo < i < after.len() implies #[trigger] has_parent(g, after, lo, i) by {
        if i < before.len() {
            assert(has_parent(g, before, lo, i));
            let j = choose|j: int|
                lo <= j < i && #[trigger] has_sub(before[j], def_for(g, before[j]), before[i]);
            assert(has_sub(after[j], def_for(g, after[j]), after[i]));
        } else if i == before.len() {
            assert(has_sub(after[parent], def_for(g, after[parent]), after[i]));
        } else {
            assert(has_parent(g, after, before.len() as int, i));
            let j = choose|j: int|
                before.len() <= j < i && #[trigger] has_sub(after[j], def_for(g, after[j]), after[i]);
        }
    }
}

proof fn lemma_pending_mono(g: Map<IdModel, DefModel>, a: Seq<IdModel>, b: Seq<IdModel>)
    requires
        g.dom().finite(),
        forall|x: IdModel| a.contains(x) ==> b.contains(x),
    ensures
        pending(g, b) <= pending(g, a),
{
    let da = g.dom().difference(a.to_set());
    let db = g.dom().difference(b.to_set());
    assert(db.subset_of(da));
    vstd::set_lib::lemma_len_subset(db, da);
}

proof fn lemma_pending_push(g: Map<IdModel, DefModel>, a: Seq<IdModel>, x: IdModel)
    requires
        g.dom().finite(),
        g.dom().contains(x),
        !a.contains(x),
    ensures
        pending(g, a.push(x)) < pending(g, a),
{
    let da = g.dom().difference(a.to_set());
    let db = g.dom().difference(a.push(x).to_set());
    assert forall|y: IdModel| a.push(x).contains(y) <==> a.contains(y) || y == x by {
        if a.push(x).contains(y) {
            let k = choose|k: int| 0 <= k < a.push(x).len() && a.push(x)[k] == y;
            if k < a.len() {
                assert(a[k] == y);
            }
        }
        if a.contains(y) {
            let k = choose|k: int| 0 <= k < a.len() && a[k] == y;
            assert(a.push(x)[k] == y);
        }
        if y == x {
            assert(a.push(x)[a.len() as int] == y);
        }
    }
    assert(db =~= da.remove(x));
    assert(da.contains(x));
}

/// A prefix keeps every element it has.
proof fn lemma_prefix_contains(a: Seq<IdModel>, b: Seq<IdModel>)
    requires
        a.len() <= b.len(),
        b.subrange(0, a.len() as int) == a,
    ensures
        forall|x: IdModel| a.contains(x) ==> b.contains(x),
{
    assert forall|x: IdModel| a.contains(x) implies b.contains(x) by {
        let k = choose|k: int| 0 <= k < a.len() && a[k] == x;
        assert(b.subrange(0, a.len() as int)[k] == b[k]);
    }
}

proof fn lemma_grows_trans(
    g: Map<IdModel, DefModel>,
    i0: Seq<IdModel>,
    d0: Seq<Option<DefModel>>,
    i1: Seq<IdModel>,
    d1: Seq<Option<DefModel>>,
    i2: Seq<IdModel>,
    d2: Seq<Option<DefModel>>,
)
    requires
        grows(g, i0, d0, i1, d1),
        grows(g, i1, d1, i2, d2),
    ensures
        grows(g, i0, d0, i2, d2),
{
    lemma_prefix_contains(i1, i2);
    assert forall|i: int| 0 <= i < i0.len() implies i2[i] == i0[i] by {
        assert(i2.subrange(0, i1.len() as int)[i] == i2[i]);
        assert(i1.subrange(0, i0.len() as int)[i] == i1[i]);
    }
    assert(i2.subrange(0, i0.len() as int) =~= i0);
    assert forall|i: int| i0.len() <= i < i2.len() implies #[trigger] d2[i] == Some(
        def_for(g, i2[i]),
    ) by {
        if i < i1.len() {
            assert(i2.subrange(0, i1.len() as int)[i] == i2[i]);
        }
    }
    assert forall|i: int, s: IdModel|
        i0.len() <= i < i2.len() && #[trigger] has_sub(i2[i], def_for(g, i2[i]), s) implies i2.contains(
        s,
    ) by {
        if i < i1.len() {
            assert(i2.subrange(0, i1.len() as int)[i] == i2[i]);
            assert(i1.contains(s));
        }
    }
}

proof fn lemma_sub_decreases(id: IdModel, s: IdModel)
    requires
        id_has_sub(id, s),
    ensures
        decreases_to!(id => s),
{
    match id {
        IdModel::Tuple(v) => {
            let k = choose|k: int| 0 <= k < v.len() && v[k] == s;
            assert(decreases_to!(id => v));
            assert(decreases_to!(v => v[k]));
        },
        IdModel::Custom(n, ns, v) => {
            let k = choose|k: int| 0 <= k < v.len() && v[k] == s;
            assert(decreases_to!(id => v));
            assert(decreases_to!(v => v[k]));
        },
        _ => {},
    }
}

impl Registry {
    /// Registers the type with identity `id`, taking named types' bodies from
    /// `graph`, and returns its index. An identity registered already keeps its
    /// index and nothing changes. A new one gets the next index, reserved before
    /// its subtypes are registered, so that a type that refers back to itself
    /// finds its own index and the walk ends.
    fn register_walk(
        &mut self,
        graph: &TypeGraph,
        id: &TypeId,
        Ghost(measure): Ghost<nat>,
    ) -> (r: usize)
        requires
            old(self).wf(),
            measure == pending(graph@, old(self).id_seq()),
            graph.wf(),
            graph_closed(graph@),
            covered(id@, graph@.dom()),
        ensures
            final(self).wf(),
            r < final(self).id_seq().len(),
            final(self).id_seq()[r as int] == id@,
            grows(
                graph@,
                old(self).id_seq(),
                old(self).def_seq(),
                final(self).id_seq(),
                final(self).def_seq(),
            ),
            old(self).id_seq().contains(id@) ==> final(self).id_seq() == old(self).id_seq()
                && final(self).def_seq() == old(self).def_seq(),
            !old(self).id_seq().contains(id@) ==> r == old(self).id_seq().len(),
            rooted(
                graph@,
                final(self).id_seq(),
                old(self).id_seq().len() as int,
                final(self).id_seq().len() as int,
                id@,
            ),
        decreases measure, id@,
    {
        if let Some(i) = self.index_of(id) {
            assert(self.id_seq().subrange(0, self.id_seq().len() as int) =~= self.id_seq());
            return i;
        }
        let ghost ids0 = self.id_seq();
        let ghost defs0 = self.def_seq();
        let idx = self.ids.len();
        self.ids.push(id_copy(id));
        self.defs.push(None);
        let ghost ids1 = self.id_seq();
        let ghost defs1 = self.def_seq();
        assert(ids1 =~= ids0.push(id@));
        assert(defs1 =~= defs0.push(None));
        assert forall|a: int, b: int| 0 <= a < b < ids1.len() implies ids1[a] != ids1[b] by {
            if b == ids0.len() {
                assert(ids0[a] == ids1[a]);
            }
        }
        assert(ids1.subrange(0, ids0.len() as int) =~= ids0);
        assert(ids1.subrange(0, ids1.len() as int) =~= ids1);
        proof {
            graph.lemma_finite();
            lemma_prefix_contains(ids0, ids1);
            lemma_pending_mono(graph@, ids0, ids1);
            if id@ is Custom {
                lemma_pending_push(graph@, ids0, id@);
            }
        }
        let def = match id {
            TypeId::Custom(_, _, _) => match graph.def_of(id) {
                Some(d) => def_copy(d),
                None => TypeDef::Builtin,
            },
            _ => TypeDef::Builtin,
        };
        assert(def@ == def_for(graph@, id@));
        let subs = sub_ids(id, &def);
        let mut i: usize = 0;
        while i < subs.len()
            invariant
                self.wf(),
                graph.wf(),
                graph_closed(graph@),
                covered(id@, graph@.dom()),
                0 <= i <= subs@.len(),
                ids1 == ids0.push(id@),
                defs1 == defs0.push(None),
                measure == pending(graph@, ids0),
                grows(graph@, ids1, defs1, self.id_seq(), self.def_seq()),
                def@ == def_for(graph@, id@),
                forall|s: IdModel| #[trigger] ids_of(subs@).contains(s) <==> has_sub(id@, def@, s),
                def@ == DefModel::Builtin ==> forall|s: IdModel|
                    #[trigger] ids_of(subs@).contains(s) ==> id_has_sub(id@, s),
                forall|j: int| 0 <= j < i ==> self.id_seq().contains(#[trigger] subs@[j]@),
                pending(graph@, self.id_seq()) <= pending(graph@, ids1),
                pending(graph@, ids1) <= pending(graph@, ids0),
                id@ is Custom ==> pending(graph@, ids1) < pending(graph@, ids0),
                rooted(graph@, self.id_seq(), ids0.len() as int, self.id_seq().len() as int, id@),
                self.id_seq().len() > ids0.len(),
                self.id_seq()[ids0.len() as int] == id@,
            decreases subs@.len() - i,
        {
            let ghost before_i = self.id_seq();
            let ghost before_d = self.def_seq();
            let ghost s = subs@[i as int]@;
            proof {
                assert(ids_of(subs@)[i as int] == s);
                assert(ids_of(subs@).contains(s));
                if id_has_sub(id@, s) {
                    lemma_covered_sub(id@, graph@.dom(), s);
                } else {
                    assert(def_has_sub(graph@[id@], s));
                }
                if !(id@ is Custom) {
                    lemma_sub_decreases(id@, s);
                }
            }
            let sub = &subs[i];
            self.register_walk(graph, sub, Ghost(pending(graph@, self.id_seq())));
            proof {
                lemma_grows_trans(
                    graph@,
                    ids1,
                    defs1,
                    before_i,
                    before_d,
                    self.id_seq(),
                    self.def_seq(),
                );
                lemma_prefix_contains(before_i, self.id_seq());
                graph.lemma_finite();
                lemma_pending_mono(graph@, before_i, self.id_seq());
                lemma_rooted_extend(
                    graph@,
                    before_i,
                    self.id_seq(),
                    ids0.len() as int,
                    id@,
                    ids0.len() as int,
                    s,
                );
                assert(self.id_seq().subrange(0, before_i.len() as int)[ids0.len() as int]
                    == self.id_seq()[ids0.len() as int]);
            }
            i = i + 1;
        }
        let ghost end_i = self.id_seq();
        let ghost end_d = self.def_seq();
        self.defs.set(idx, Some(def));
        proof {
            assert(self.id_seq() == end_i);
            assert(self.def_seq() =~= end_d.update(idx as int, Some(def@)));
            assert(end_i[idx as int] == id@) by {
                assert(end_i.subrange(0, ids1.len() as int)[idx as int] == end_i[idx as int]);
            }
            assert forall|s: IdModel| has_sub(id@, def@, s) implies end_i.contains(s) by {
                assert(ids_of(subs@).contains(s));
                let j = choose|j: int| 0 <= j < ids_of(subs@).len() && ids_of(subs@)[j] == s;
                assert(subs@[j]@ == s);
            }
            assert forall|a: int| 0 <= a < ids0.len() implies #[trigger] self.def_seq()[a] == defs0[a] by {
                assert(end_d[a] == defs1[a]);
            }
            assert(end_i.subrange(0, ids0.len() as int) =~= ids0) by {
                assert forall|a: int| 0 <= a < ids0.len() implies end_i[a] == ids0[a] by {
                    assert(end_i.subrange(0, ids1.len() as int)[a] == end_i[a]);
                }
            }
        }
        idx
    }
}

/// Whether the table is self-consistent: every index holds the body the graph
/// gives for its identity, and every subtype it refers to is registered.
pub open spec fn table_consistent(
    g: Map<IdModel, DefModel>,
    ids: Seq<IdModel>,
    defs: Seq<Option<DefModel>>,
) -> bool {
    &&& ids.len() == defs.len()
    &&& forall|i: int| 0 <= i < ids.len() ==> #[trigger] defs[i] == Some(def_for(g, ids[i]))
    &&& forall|i: int, s: IdModel|
        0 <= i < ids.len() && #[trigger] has_sub(ids[i], def_for(g, ids[i]), s) ==> ids.contains(s)
}

impl Registry {
    /// Registers the type with identity `id` and every type it reaches, taking
    /// named types' bodies from `graph`, and returns its index. An identity
    /// registered already keeps its index and the registry does not change; a
    /// new one gets the next index.
    pub fn register_id(&mut self, graph: &TypeGraph, id: &TypeId) -> (r: usize)
        requires
            old(self).wf(),
            graph.wf(),
            graph_closed(graph@),
            covered(id@, graph@.dom()),
        ensures
            final(self).wf(),
            r < final(self).id_seq().len(),
            final(self).id_seq()[r as int] == id@,
            forall|j: int|
                0 <= j < final(self).id_seq().len() && final(self).id_seq()[j] == id@ ==> j == r,
            grows(
                graph@,
                old(self).id_seq(),
                old(self).def_seq(),
                final(self).id_seq(),
                final(self).def_seq(),
            ),
            old(self).id_seq().contains(id@) ==> final(self).id_seq() == old(self).id_seq()
                && final(self).def_seq() == old(self).def_seq(),
            !old(self).id_seq().contains(id@) ==> r == old(self).id_seq().len(),
            rooted(
                graph@,
                final(self).id_seq(),
                old(self).id_seq().len() as int,
                final(self).id_seq().len() as int,
                id@,
            ),
    {
        self.register_walk(graph, id, Ghost(pending(graph@, self.id_seq())))
    }

    /// Registers the type `T` and every type it reaches; see [`Registry::register_id`].
    pub fn register_type<T: HasTypeId + ?Sized>(&mut self, graph: &TypeGraph) -> (r: usize)
        requires
            old(self).wf(),
            graph.wf(),
            graph_closed(graph@),
            covered(T::spec_type_id(), graph@.dom()),
        ensures
            final(self).wf(),
            r < final(self).id_seq().len(),
            final(self).id_seq()[r as int] == T::spec_type_id(),
            forall|j: int|
                0 <= j < final(self).id_seq().len() && final(self).id_seq()[j] == T::spec_type_id()
                    ==> j == r,
            grows(
                graph@,
                old(self).id_seq(),
                old(self).def_seq(),
                final(self).id_seq(),
                final(self).def_seq(),
            ),
            old(self).id_seq().contains(T::spec_type_id()) ==> final(self).id_seq() == old(
                self,
            ).id_seq() && final(self).def_seq() == old(self).def_seq(),
            !old(self).id_seq().contains(T::spec_type_id()) ==> r == old(self).id_seq().len(),
            rooted(
                graph@,
                final(self).id_seq(),
                old(self).id_seq().len() as int,
                final(self).id_seq().len() as int,
                T::spec_type_id(),
            ),
    {
        let id = T::type_id();
        self.register_id(graph, &id)
    }

    /// Registers the type `T` where the graph describes every named type that
    /// `T` reaches; returns `None`, changing nothing, where it does not.
    pub fn try_register_type<T: HasTypeId + ?Sized>(&mut self, graph: &TypeGraph) -> (r: Option<
        usize,
    >)
        requires
            old(self).wf(),
            graph.wf(),
        ensures
            final(self).wf(),
            r is Some <==> graph_closed(graph@) && covered(T::spec_type_id(), graph@.dom()),
            r is None ==> final(self).id_seq() == old(self).id_seq() && final(self).def_seq()
                == old(self).def_seq(),
            r matches Some(i) ==> {
                &&& i < final(self).id_seq().len()
                &&& final(self).id_seq()[i as int] == T::spec_type_id()
                &&& grows(
                    graph@,
                    old(self).id_seq(),
                    old(self).def_seq(),
                    final(self).id_seq(),
                    final(self).def_seq(),
                )
                &&& old(self).id_seq().contains(T::spec_type_id()) ==> final(self).id_seq()
                    == old(self).id_seq() && final(self).def_seq() == old(self).def_seq()
                &&& !old(self).id_seq().contains(T::spec_type_id()) ==> i == old(
                    self,
                ).id_seq().len()
                &&& rooted(
                    graph@,
                    final(self).id_seq(),
                    old(self).id_seq().len() as int,
                    final(self).id_seq().len() as int,
                    T::spec_type_id(),
                )
            },
    {
        let id = T::type_id();
        if !graph.is_closed() || !graph.covers(&id) {
            return None;
        }
        Some(self.register_id(graph, &id))
    }
}

/// A session that starts from an empty registry ends with a self-consistent
/// table: every index holds the body the graph gives for its identity, and every
/// subtype that body or identity refers to is registered in the same table.
pub proof fn lemma_session_consistent(
    g: Map<IdModel, DefModel>,
    ids: Seq<IdModel>,
    defs: Seq<Option<DefModel>>,
)
    requires
        ids.len() == defs.len(),
        grows(g, Seq::empty(), Seq::empty(), ids, defs),
    ensures
        table_consistent(g, ids, defs),
{
}

/// A type whose body has a field of its own type is registered once, and that
/// field resolves to the type's own index.
pub proof fn lemma_self_reference(
    g: Map<IdModel, DefModel>,
    ids: Seq<IdModel>,
    defs: Seq<Option<DefModel>>,
    i: int,
)
    requires
        table_consistent(g, ids, defs),
        forall|a: int, b: int| 0 <= a < b < ids.len() ==> ids[a] != ids[b],
        0 <= i < ids.len(),
        ids[i] is Custom,
        def_has_sub(g[ids[i]], ids[i]),
    ensures
        defs[i] == Some(g[ids[i]]),
        forall|j: int| 0 <= j < ids.len() && ids[j] == ids[i] ==> j == i,
{
    assert forall|j: int| 0 <= j < ids.len() && ids[j] == ids[i] implies j == i by {
        if j < i {
            assert(ids[j] != ids[i]);
        } else if j > i {
            assert(ids[i] != ids[j]);
        }
    }
}

} // verus!
