//! The laws of the stepping engine, stated over the model in `semantics`
//! and proved once and for all: determinism, monotonic dependencies,
//! verbatim throw propagation, node idempotence, dependency order
//! preservation, and conflict detection.

use vstd::prelude::*;
use crate::keys::{Key, find_variant};
use crate::nodes::{CompleteV, NodeV, SelectDependenciesNodeV, SelectNodeV, StateV, create_model};
use crate::selectors::Selector;
use crate::semantics::{
    ContextV, Gather, TaskGather, dep_product_node_model, gather_deps, gather_select,
    gather_task, gen_nodes_model, msg_conflict, needs_variant_fetch, project_field_node_model,
    select_dependencies_step_model, select_gate_model, select_literal_model, select_match_model,
    select_node_model, select_step_model, step_defined, step_model, variants_node_model,
};

verus! {

/// Determinism: stepping denotes a function, so equal nodes stepped against
/// equal contexts (equal completions, registry, and host model) give equal
/// states.  The executable `step` is pinned to this function by its
/// postcondition.
pub proof fn lemma_step_deterministic(n1: NodeV, n2: NodeV, c1: ContextV, c2: ContextV)
    requires
        n1 == n2,
        c1 == c2,
    ensures
        step_model(n1, c1) == step_model(n2, c2),
{
}

/// Node idempotence: equal (selector, subject, variants) triples denote the
/// same node, a completion store answers them with the same completion, and
/// stepping them in one context gives the same state.
pub proof fn lemma_select_idempotence(
    sel1: Selector,
    sel2: Selector,
    subject1: Key,
    subject2: Key,
    variants1: Seq<(Key, Key)>,
    variants2: Seq<(Key, Key)>,
    c: ContextV,
)
    requires
        sel1 == sel2,
        subject1 == subject2,
        variants1 == variants2,
    ensures
        create_model(sel1, subject1, variants1) == create_model(sel2, subject2, variants2),
        c.deps.contains_key(create_model(sel1, subject1, variants1))
            ==> c.deps[create_model(sel1, subject1, variants1)]
            == c.deps[create_model(sel2, subject2, variants2)],
        step_defined(create_model(sel1, subject1, variants1), c)
            ==> step_model(create_model(sel1, subject1, variants1), c)
            == step_model(create_model(sel2, subject2, variants2), c),
{
}

/// Every dependency a `Select` rule walk leaves waiting is missing from the
/// completion store.
proof fn lemma_gather_select_missing(c: ContextV, nodes: Seq<NodeV>, product: crate::keys::TypeId, vv: Option<Key>)
    ensures
        gather_select(c, nodes, product, vv) matches Gather::Partial(ds, _) ==> forall|i: int|
            0 <= i < ds.len() ==> !c.deps.contains_key(ds[i]),
    decreases nodes.len(),
{
    if nodes.len() == 0 {
    } else {
        lemma_gather_select_missing(c, nodes.subrange(1, nodes.len() as int), product, vv);
    }
}

/// Every dependency a `SelectDependencies` walk leaves waiting is missing
/// from the completion store.
proof fn lemma_gather_deps_missing(c: ContextV, s: SelectDependenciesNodeV, subjects: Seq<Key>)
    ensures
        gather_deps(c, s, subjects) matches Gather::Partial(ds, _) ==> forall|i: int|
            0 <= i < ds.len() ==> !c.deps.contains_key(ds[i]),
    decreases subjects.len(),
{
    if subjects.len() == 0 {
    } else {
        lemma_gather_deps_missing(c, s, subjects.subrange(1, subjects.len() as int));
    }
}

/// Every dependency a rule-clause walk leaves waiting is missing from the
/// completion store.
proof fn lemma_gather_task_missing(c: ContextV, subject: Key, variants: Seq<(Key, Key)>, clause: Seq<Selector>)
    ensures
        gather_task(c, subject, variants, clause) matches TaskGather::Partial(ds, _) ==> forall|
            i: int,
        |
            0 <= i < ds.len() ==> !c.deps.contains_key(ds[i]),
    decreases clause.len(),
{
    if clause.len() == 0 {
    } else {
        lemma_gather_task_missing(c, subject, variants, clause.subrange(1, clause.len() as int));
    }
}

/// A waiting step lists at least one dependency, and only dependencies the
/// completion store does not answer yet.
pub proof fn lemma_waiting_deps_missing(n: NodeV, c: ContextV)
    requires
        step_defined(n, c),
    ensures
        step_model(n, c) matches StateV::Waiting(ds) ==> ds.len() > 0 && forall|i: int|
            0 <= i < ds.len() ==> !c.deps.contains_key(ds[i]),
{
    match n {
        NodeV::Select(s) => {
            lemma_gather_select_missing(
                c,
                gen_nodes_model(c, s.subject, s.selector.product, s.variants),
                s.selector.product,
                None,
            );
            match s.selector.variant_key {
                Some(k) => {
                    match find_variant(s.variants, k) {
                        Some(vv) => {
                            lemma_gather_select_missing(
                                c,
                                gen_nodes_model(c, s.subject, s.selector.product, s.variants),
                                s.selector.product,
                                Some(vv),
                            );
                        },
                        None => {},
                    }
                },
                None => {},
            }
        },
        NodeV::SelectLiteral(_) => {},
        NodeV::SelectDependencies(s) => {
            let dpn = dep_product_node_model(s);
            if c.deps.contains_key(dpn) {
                match c.deps[dpn] {
                    CompleteV::Return(v) => {
                        lemma_gather_deps_missing(c, s, (c.host.project_multi)(v, s.selector.field));
                    },
                    _ => {},
                }
            }
        },
        NodeV::ProjectField(_) => {},
        NodeV::SelectProjection(_) => {},
        NodeV::Task(t) => {
            lemma_gather_task_missing(c, t.subject, t.variants, t.selector.clause);
        },
    }
}

/// Monotonic dependencies: if a step waits on a set of dependencies, and
/// the completion store is extended so that every one of them is answered,
/// then re-stepping never regresses: it either waits on dependencies that
/// are entirely fresh (none answered, none among the old set), or it has
/// progressed to a runnable or a completion.
pub proof fn lemma_step_monotonic(n: NodeV, c1: ContextV, c2: ContextV)
    requires
        step_defined(n, c2),
        c1.tasks == c2.tasks,
        c1.host == c2.host,
        forall|k: NodeV| c1.deps.contains_key(k)
            ==> c2.deps.contains_key(k) && c1.deps[k] == c2.deps[k],
        step_model(n, c1) is Waiting,
        forall|i: int| 0 <= i < step_model(n, c1)->Waiting_0.len()
            ==> c2.deps.contains_key(step_model(n, c1)->Waiting_0[i]),
    ensures
        step_model(n, c2) is Waiting ==> forall|i: int|
            0 <= i < step_model(n, c2)->Waiting_0.len() ==> {
                &&& !c2.deps.contains_key(step_model(n, c2)->Waiting_0[i])
                &&& !step_model(n, c1)->Waiting_0.contains(step_model(n, c2)->Waiting_0[i])
            },
{
    lemma_waiting_deps_missing(n, c2);
    if step_model(n, c2) is Waiting {
        let ds1 = step_model(n, c1)->Waiting_0;
        let ds2 = step_model(n, c2)->Waiting_0;
        assert forall|i: int| 0 <= i < ds2.len() implies !c2.deps.contains_key(ds2[i])
            && !ds1.contains(ds2[i]) by {
            if ds1.contains(ds2[i]) {
                let j = choose|j: int| 0 <= j < ds1.len() && ds1[j] == ds2[i];
                assert(c2.deps.contains_key(ds1[j]));
            }
        }
    }
}

/// The dependency nodes a `Select` rule walk examines: all candidates in
/// order, stopping only at the first one that has thrown.
pub open spec fn consulted_gather_select(c: ContextV, nodes: Seq<NodeV>) -> Seq<NodeV>
    decreases nodes.len(),
{
    if nodes.len() == 0 {
        Seq::empty()
    } else {
        let n0 = nodes[0];
        if c.deps.contains_key(n0) && c.deps[n0] is Throw {
            seq![n0]
        } else {
            seq![n0] + consulted_gather_select(c, nodes.subrange(1, nodes.len() as int))
        }
    }
}

/// The dependency nodes a `SelectDependencies` walk examines: the select
/// node of each subject in order, stopping at the first fatal answer (a
/// noop or a throw).
pub open spec fn consulted_gather_deps(c: ContextV, s: SelectDependenciesNodeV, subjects: Seq<Key>) -> Seq<NodeV>
    decreases subjects.len(),
{
    if subjects.len() == 0 {
        Seq::empty()
    } else {
        let n0 = select_node_model(subjects[0], s.variants, s.selector.product);
        if c.deps.contains_key(n0) && (c.deps[n0] is Throw || c.deps[n0] is Noop) {
            seq![n0]
        } else {
            seq![n0] + consulted_gather_deps(c, s, subjects.subrange(1, subjects.len() as int))
        }
    }
}

/// The dependency nodes a rule-clause walk examines: the node of each
/// clause entry in order, stopping at the first fatal answer (a noop or a
/// throw).
pub open spec fn consulted_gather_task(c: ContextV, subject: Key, variants: Seq<(Key, Key)>, clause: Seq<Selector>) -> Seq<NodeV>
    decreases clause.len(),
{
    if clause.len() == 0 {
        Seq::empty()
    } else {
        let n0 = create_model(clause[0], subject, variants);
        if c.deps.contains_key(n0) && (c.deps[n0] is Throw || c.deps[n0] is Noop) {
            seq![n0]
        } else {
            seq![n0] + consulted_gather_task(c, subject, variants, clause.subrange(1, clause.len() as int))
        }
    }
}

/// The match stage of a `Select` examines the rule nodes only when the
/// subject itself does not satisfy the product literally.
pub open spec fn consulted_select_match(s: SelectNodeV, c: ContextV, vv: Option<Key>) -> Seq<NodeV> {
    match select_literal_model(c, s.selector.product, s.subject, vv) {
        Some(_) => Seq::empty(),
        None => consulted_gather_select(
            c,
            gen_nodes_model(c, s.subject, s.selector.product, s.variants),
        ),
    }
}

/// The variant gate examines dependencies only when it resolves.
pub open spec fn consulted_select_gate(s: SelectNodeV, c: ContextV) -> Seq<NodeV> {
    match s.selector.variant_key {
        Some(k) => match find_variant(s.variants, k) {
            None => Seq::empty(),
            Some(vv) => consulted_select_match(s, c, Some(vv)),
        },
        None => consulted_select_match(s, c, None),
    }
}

/// The dependency nodes one step examines, in examination order.  A walk
/// stops early only at the first examined fatal answer, so everything after
/// such an answer is not examined.
pub open spec fn consulted_deps(n: NodeV, c: ContextV) -> Seq<NodeV> {
    match n {
        NodeV::Select(s) => {
            if needs_variant_fetch(s, c) {
                let vnode = variants_node_model(s, c);
                if c.deps.contains_key(vnode) && c.deps[vnode] is Noop {
                    seq![vnode] + consulted_select_gate(s, c)
                } else {
                    seq![vnode]
                }
            } else {
                consulted_select_gate(s, c)
            }
        },
        NodeV::SelectLiteral(_) => Seq::empty(),
        NodeV::SelectDependencies(s) => {
            let dpn = dep_product_node_model(s);
            if c.deps.contains_key(dpn) && c.deps[dpn] is Return {
                seq![dpn] + consulted_gather_deps(
                    c,
                    s,
                    (c.host.project_multi)(c.deps[dpn]->Return_0, s.selector.field),
                )
            } else {
                seq![dpn]
            }
        },
        NodeV::ProjectField(p) => seq![
            select_node_model(p.subject, p.variants, p.selector.input_product),
        ],
        NodeV::SelectProjection(s) => {
            let pnode = project_field_node_model(s);
            if c.deps.contains_key(pnode) && c.deps[pnode] is Return {
                seq![pnode, select_node_model(c.deps[pnode]->Return_0, s.variants, s.selector.product)]
            } else {
                seq![pnode]
            }
        },
        NodeV::Task(t) => consulted_gather_task(c, t.subject, t.variants, t.selector.clause),
    }
}

/// Whether some examined dependency has thrown the given message.
pub open spec fn some_consulted_threw(ns: Seq<NodeV>, c: ContextV, m: Seq<char>) -> bool {
    exists|i: int|
        0 <= i < ns.len() && c.deps.contains_key(ns[i]) && c.deps[ns[i]] == CompleteV::Throw(m)
}

/// Whether some examined dependency has thrown at all.
pub open spec fn some_consulted_throws(ns: Seq<NodeV>, c: ContextV) -> bool {
    exists|i: int| 0 <= i < ns.len() && c.deps.contains_key(ns[i]) && c.deps[ns[i]] is Throw
}

/// A witness carried from the tail of an examined list to the whole list.
proof fn lemma_witness_cons(n0: NodeV, rest: Seq<NodeV>, c: ContextV, m: Seq<char>)
    requires
        some_consulted_threw(rest, c, m),
    ensures
        some_consulted_threw(seq![n0] + rest, c, m),
{
    let i = choose|i: int|
        0 <= i < rest.len() && c.deps.contains_key(rest[i]) && c.deps[rest[i]] == CompleteV::Throw(m);
    assert((seq![n0] + rest)[i + 1] == rest[i]);
}

/// If any examined candidate of a `Select` rule walk has thrown, the walk
/// fails with the message of an examined, thrown candidate.
proof fn lemma_gather_select_throws(c: ContextV, nodes: Seq<NodeV>, product: crate::keys::TypeId, vv: Option<Key>)
    requires
        some_consulted_throws(consulted_gather_select(c, nodes), c),
    ensures
        gather_select(c, nodes, product, vv) is Thrown,
        some_consulted_threw(
            consulted_gather_select(c, nodes),
            c,
            gather_select(c, nodes, product, vv)->Thrown_0,
        ),
    decreases nodes.len(),
{
    let ns = consulted_gather_select(c, nodes);
    let n0 = nodes[0];
    if c.deps.contains_key(n0) && c.deps[n0] is Throw {
        assert(ns[0] == n0);
    } else {
        let rest = nodes.subrange(1, nodes.len() as int);
        let nsr = consulted_gather_select(c, rest);
        assert(ns == seq![n0] + nsr);
        let i = choose|i: int|
            0 <= i < ns.len() && c.deps.contains_key(ns[i]) && c.deps[ns[i]] is Throw;
        assert(ns[i] == if i == 0 { n0 } else { nsr[i - 1] });
        assert(i > 0);
        assert(some_consulted_throws(nsr, c));
        lemma_gather_select_throws(c, rest, product, vv);
        lemma_witness_cons(n0, nsr, c, gather_select(c, rest, product, vv)->Thrown_0);
    }
}

/// If any examined dependency of a `SelectDependencies` walk has thrown,
/// the walk fails, either with that verbatim message or because an earlier
/// dependency resolved to nothing; and whenever the first fatal answer is a
/// throw, its message is propagated verbatim.
proof fn lemma_gather_deps_throws(c: ContextV, s: SelectDependenciesNodeV, subjects: Seq<Key>)
    requires
        some_consulted_throws(consulted_gather_deps(c, s, subjects), c),
    ensures
        gather_deps(c, s, subjects) is Thrown,
        some_consulted_threw(
            consulted_gather_deps(c, s, subjects),
            c,
            gather_deps(c, s, subjects)->Thrown_0,
        ),
    decreases subjects.len(),
{
    let ns = consulted_gather_deps(c, s, subjects);
    let n0 = select_node_model(subjects[0], s.variants, s.selector.product);
    if c.deps.contains_key(n0) && (c.deps[n0] is Throw || c.deps[n0] is Noop) {
        assert(ns =~= seq![n0]);
        assert(c.deps[n0] is Throw);
    } else {
        let rest = subjects.subrange(1, subjects.len() as int);
        let nsr = consulted_gather_deps(c, s, rest);
        assert(ns == seq![n0] + nsr);
        let i = choose|i: int|
            0 <= i < ns.len() && c.deps.contains_key(ns[i]) && c.deps[ns[i]] is Throw;
        assert(ns[i] == if i == 0 { n0 } else { nsr[i - 1] });
        assert(i > 0);
        assert(some_consulted_throws(nsr, c));
        lemma_gather_deps_throws(c, s, rest);
        lemma_witness_cons(n0, nsr, c, gather_deps(c, s, rest)->Thrown_0);
    }
}

/// If any examined input of a rule-clause walk has thrown, the walk fails
/// with its verbatim message.
proof fn lemma_gather_task_throws(c: ContextV, subject: Key, variants: Seq<(Key, Key)>, clause: Seq<Selector>)
    requires
        some_consulted_throws(consulted_gather_task(c, subject, variants, clause), c),
    ensures
        gather_task(c, subject, variants, clause) is Thrown,
        some_consulted_threw(
            consulted_gather_task(c, subject, variants, clause),
            c,
            gather_task(c, subject, variants, clause)->Thrown_0,
        ),
    decreases clause.len(),
{
    let ns = consulted_gather_task(c, subject, variants, clause);
    let n0 = create_model(clause[0], subject, variants);
    if c.deps.contains_key(n0) && (c.deps[n0] is Throw || c.deps[n0] is Noop) {
        assert(ns =~= seq![n0]);
        assert(c.deps[n0] is Throw);
    } else {
        let rest = clause.subrange(1, clause.len() as int);
        let nsr = consulted_gather_task(c, subject, variants, rest);
        assert(ns == seq![n0] + nsr);
        let i = choose|i: int|
            0 <= i < ns.len() && c.deps.contains_key(ns[i]) && c.deps[ns[i]] is Throw;
        assert(ns[i] == if i == 0 { n0 } else { nsr[i - 1] });
        assert(i > 0);
        assert(some_consulted_throws(nsr, c));
        lemma_gather_task_throws(c, subject, variants, rest);
        lemma_witness_cons(n0, nsr, c, gather_task(c, subject, variants, rest)->Thrown_0);
    }
}

/// Throw propagation: when any dependency a step examines has thrown, the
/// step completes with a throw, and its message is propagated verbatim
/// from an examined, thrown dependency.  (With a single thrown dependency
/// this is exactly its message.)
pub proof fn lemma_throw_propagation(n: NodeV, c: ContextV)
    requires
        step_defined(n, c),
        some_consulted_throws(consulted_deps(n, c), c),
    ensures
        step_model(n, c) is Complete,
        step_model(n, c)->Complete_0 is Throw,
        some_consulted_threw(consulted_deps(n, c), c, step_model(n, c)->Complete_0->Throw_0),
{
    let ns = consulted_deps(n, c);
    match n {
        NodeV::Select(s) => {
            if needs_variant_fetch(s, c) {
                let vnode = variants_node_model(s, c);
                if c.deps.contains_key(vnode) && c.deps[vnode] is Noop {
                    let nsg = consulted_select_gate(s, c);
                    assert(ns == seq![vnode] + nsg);
                    let i = choose|i: int|
                        0 <= i < ns.len() && c.deps.contains_key(ns[i]) && c.deps[ns[i]] is Throw;
                    assert(ns[i] == if i == 0 { vnode } else { nsg[i - 1] });
                    assert(i > 0);
                    assert(some_consulted_throws(nsg, c));
                    lemma_select_gate_throws(s, c);
                    lemma_witness_cons(vnode, nsg, c, select_gate_model(s, c)->Complete_0->Throw_0);
                } else {
                    let i = choose|i: int|
                        0 <= i < ns.len() && c.deps.contains_key(ns[i]) && c.deps[ns[i]] is Throw;
                    assert(ns =~= seq![vnode]);
                    assert(c.deps.contains_key(vnode) && c.deps[vnode] is Throw);
                    assert(some_consulted_threw(ns, c, c.deps[vnode]->Throw_0));
                }
            } else {
                lemma_select_gate_throws(s, c);
            }
        },
        NodeV::SelectLiteral(_) => {
            assert(false);
        },
        NodeV::SelectDependencies(s) => {
            let dpn = dep_product_node_model(s);
            if c.deps.contains_key(dpn) && c.deps[dpn] is Return {
                let subjects = (c.host.project_multi)(c.deps[dpn]->Return_0, s.selector.field);
                let nsr = consulted_gather_deps(c, s, subjects);
                assert(ns == seq![dpn] + nsr);
                let i = choose|i: int|
                    0 <= i < ns.len() && c.deps.contains_key(ns[i]) && c.deps[ns[i]] is Throw;
                assert(ns[i] == if i == 0 { dpn } else { nsr[i - 1] });
                assert(i > 0);
                assert(some_consulted_throws(nsr, c));
                lemma_gather_deps_throws(c, s, subjects);
                lemma_witness_cons(dpn, nsr, c, gather_deps(c, s, subjects)->Thrown_0);
            } else {
                let i = choose|i: int|
                    0 <= i < ns.len() && c.deps.contains_key(ns[i]) && c.deps[ns[i]] is Throw;
                assert(ns =~= seq![dpn]);
                assert(c.deps.contains_key(dpn) && c.deps[dpn] is Throw);
                assert(some_consulted_threw(ns, c, c.deps[dpn]->Throw_0));
            }
        },
        NodeV::ProjectField(p) => {
            let inode = select_node_model(p.subject, p.variants, p.selector.input_product);
            let i = choose|i: int|
                0 <= i < ns.len() && c.deps.contains_key(ns[i]) && c.deps[ns[i]] is Throw;
            assert(ns[i] == inode);
            assert(some_consulted_threw(ns, c, c.deps[inode]->Throw_0));
        },
        NodeV::SelectProjection(s) => {
            let pnode = project_field_node_model(s);
            if c.deps.contains_key(pnode) && c.deps[pnode] is Return {
                let onode = select_node_model(c.deps[pnode]->Return_0, s.variants, s.selector.product);
                let i = choose|i: int|
                    0 <= i < ns.len() && c.deps.contains_key(ns[i]) && c.deps[ns[i]] is Throw;
                assert(ns[i] == if i == 0 { pnode } else { onode });
                assert(i == 1);
                assert(c.deps.contains_key(onode) && c.deps[onode] is Throw);
                assert(some_consulted_threw(ns, c, c.deps[onode]->Throw_0));
            } else {
                let i = choose|i: int|
                    0 <= i < ns.len() && c.deps.contains_key(ns[i]) && c.deps[ns[i]] is Throw;
                assert(ns =~= seq![pnode]);
                assert(c.deps.contains_key(pnode) && c.deps[pnode] is Throw);
                assert(some_consulted_threw(ns, c, c.deps[pnode]->Throw_0));
            }
        },
        NodeV::Task(t) => {
            lemma_gather_task_throws(c, t.subject, t.variants, t.selector.clause);
        },
    }
}

/// Throw propagation, verbatim: when an examined dependency has thrown
/// message `m`, and `m` is the message of every examined thrown
/// dependency (in particular whenever only one dependency threw), the step
/// completes with exactly `Throw(m)`.
pub proof fn lemma_throw_propagation_verbatim(n: NodeV, c: ContextV, d: NodeV, m: Seq<char>)
    requires
        step_defined(n, c),
        consulted_deps(n, c).contains(d),
        c.deps.contains_key(d),
        c.deps[d] == CompleteV::Throw(m),
        forall|i: int| 0 <= i < consulted_deps(n, c).len()
            ==> ((c.deps.contains_key(#[trigger] consulted_deps(n, c)[i])
                && c.deps[consulted_deps(n, c)[i]] is Throw)
                ==> c.deps[consulted_deps(n, c)[i]] == CompleteV::Throw(m)),
    ensures
        step_model(n, c) == StateV::Complete(CompleteV::Throw(m)),
{
    let ns = consulted_deps(n, c);
    let k = choose|k: int| 0 <= k < ns.len() && ns[k] == d;
    assert(c.deps.contains_key(ns[k]) && c.deps[ns[k]] is Throw);
    lemma_throw_propagation(n, c);
}

/// The variant and match stages of a `Select` propagate an examined throw.
proof fn lemma_select_gate_throws(s: SelectNodeV, c: ContextV)
    requires
        some_consulted_throws(consulted_select_gate(s, c), c),
    ensures
        select_gate_model(s, c) is Complete,
        select_gate_model(s, c)->Complete_0 is Throw,
        some_consulted_threw(
            consulted_select_gate(s, c),
            c,
            select_gate_model(s, c)->Complete_0->Throw_0,
        ),
{
    match s.selector.variant_key {
        Some(k) => match find_variant(s.variants, k) {
            None => {
                assert(false);
            },
            Some(vv) => {
                lemma_select_match_throws(s, c, Some(vv));
            },
        },
        None => {
            lemma_select_match_throws(s, c, None);
        },
    }
}

/// The match stage of a `Select` propagates an examined throw.
proof fn lemma_select_match_throws(s: SelectNodeV, c: ContextV, vv: Option<Key>)
    requires
        some_consulted_throws(consulted_select_match(s, c, vv), c),
    ensures
        select_match_model(s, c, vv) is Complete,
        select_match_model(s, c, vv)->Complete_0 is Throw,
        some_consulted_threw(
            consulted_select_match(s, c, vv),
            c,
            select_match_model(s, c, vv)->Complete_0->Throw_0,
        ),
{
    match select_literal_model(c, s.selector.product, s.subject, vv) {
        Some(_) => {
            assert(false);
        },
        None => {
            lemma_gather_select_throws(
                c,
                gen_nodes_model(c, s.subject, s.selector.product, s.variants),
                s.selector.product,
                vv,
            );
        },
    }
}

/// Order preservation: when the dependency-listing product has returned a
/// value whose field projects to an ordered list of subjects, and the
/// select of every subject has returned a value, the node completes with
/// the interned list of exactly those values, in declaration order.
pub proof fn lemma_select_dependencies_order(s: SelectDependenciesNodeV, c: ContextV, v: Key, vs: Seq<Key>)
    requires
        c.deps.contains_key(dep_product_node_model(s)),
        c.deps[dep_product_node_model(s)] == CompleteV::Return(v),
        vs.len() == (c.host.project_multi)(v, s.selector.field).len(),
        forall|i: int| 0 <= i < vs.len() ==> c.deps.contains_key(
            select_node_model(
                #[trigger] (c.host.project_multi)(v, s.selector.field)[i],
                s.variants,
                s.selector.product,
            ),
        ) && c.deps[select_node_model(
            (c.host.project_multi)(v, s.selector.field)[i],
            s.variants,
            s.selector.product,
        )] == CompleteV::Return(vs[i]),
    ensures
        select_dependencies_step_model(s, c) == StateV::Complete(
            CompleteV::Return((c.host.store)(vs)),
        ),
{
    lemma_gather_deps_all_returned(c, s, (c.host.project_multi)(v, s.selector.field), vs);
}

/// A walk over subjects whose selects have all returned collects exactly
/// their values, in order, with nothing left waiting.
proof fn lemma_gather_deps_all_returned(c: ContextV, s: SelectDependenciesNodeV, subjects: Seq<Key>, vs: Seq<Key>)
    requires
        vs.len() == subjects.len(),
        forall|i: int| 0 <= i < vs.len() ==> c.deps.contains_key(
            select_node_model(#[trigger] subjects[i], s.variants, s.selector.product),
        ) && c.deps[select_node_model(subjects[i], s.variants, s.selector.product)]
            == CompleteV::Return(vs[i]),
    ensures
        gather_deps(c, s, subjects) == Gather::Partial(Seq::<NodeV>::empty(), vs),
    decreases subjects.len(),
{
    if subjects.len() == 0 {
        assert(vs =~= Seq::<Key>::empty());
    } else {
        let rest = subjects.subrange(1, subjects.len() as int);
        let vrest = vs.subrange(1, vs.len() as int);
        assert forall|i: int| 0 <= i < vrest.len() implies c.deps.contains_key(
            select_node_model(#[trigger] rest[i], s.variants, s.selector.product),
        ) && c.deps[select_node_model(rest[i], s.variants, s.selector.product)]
            == CompleteV::Return(vrest[i]) by {
            assert(rest[i] == subjects[i + 1]);
            assert(vrest[i] == vs[i + 1]);
        }
        lemma_gather_deps_all_returned(c, s, rest, vrest);
        assert(seq![vs[0]] + vrest =~= vs);
    }
}

/// The values a `Select` rule walk collects when every candidate has
/// completed without throwing.
pub open spec fn select_matches(c: ContextV, nodes: Seq<NodeV>, product: crate::keys::TypeId, vv: Option<Key>) -> Seq<Key>
    decreases nodes.len(),
{
    if nodes.len() == 0 {
        Seq::empty()
    } else {
        let n0 = nodes[0];
        let rest = select_matches(c, nodes.subrange(1, nodes.len() as int), product, vv);
        if c.deps.contains_key(n0) && c.deps[n0] is Return && select_literal_model(
            c,
            product,
            c.deps[n0]->Return_0,
            vv,
        ) is Some {
            seq![select_literal_model(c, product, c.deps[n0]->Return_0, vv)->0] + rest
        } else {
            rest
        }
    }
}

/// When every candidate has completed and none threw, the walk leaves
/// nothing waiting and collects exactly the passing values.
proof fn lemma_gather_select_complete(c: ContextV, nodes: Seq<NodeV>, product: crate::keys::TypeId, vv: Option<Key>)
    requires
        forall|i: int| 0 <= i < nodes.len()
            ==> c.deps.contains_key(nodes[i]) && !(c.deps[nodes[i]] is Throw),
    ensures
        gather_select(c, nodes, product, vv) == Gather::Partial(
            Seq::<NodeV>::empty(),
            select_matches(c, nodes, product, vv),
        ),
    decreases nodes.len(),
{
    if nodes.len() == 0 {
    } else {
        let rest = nodes.subrange(1, nodes.len() as int);
        lemma_gather_select_complete(c, rest, product, vv);
    }
}

/// Two passing candidates put at least two values among the collected
/// matches.
proof fn lemma_select_matches_two(c: ContextV, nodes: Seq<NodeV>, product: crate::keys::TypeId, vv: Option<Key>, i: int, j: int)
    requires
        0 <= i < j < nodes.len(),
        c.deps.contains_key(nodes[i]) && c.deps[nodes[i]] is Return && select_literal_model(
            c,
            product,
            c.deps[nodes[i]]->Return_0,
            vv,
        ) is Some,
        c.deps.contains_key(nodes[j]) && c.deps[nodes[j]] is Return && select_literal_model(
            c,
            product,
            c.deps[nodes[j]]->Return_0,
            vv,
        ) is Some,
    ensures
        select_matches(c, nodes, product, vv).len() >= 2,
    decreases nodes.len(),
{
    let rest = nodes.subrange(1, nodes.len() as int);
    if i == 0 {
        lemma_select_matches_one(c, rest, product, vv, j - 1);
    } else {
        lemma_select_matches_two(c, rest, product, vv, i - 1, j - 1);
    }
}

/// One passing candidate puts at least one value among the collected
/// matches.
proof fn lemma_select_matches_one(c: ContextV, nodes: Seq<NodeV>, product: crate::keys::TypeId, vv: Option<Key>, i: int)
    requires
        0 <= i < nodes.len(),
        c.deps.contains_key(nodes[i]) && c.deps[nodes[i]] is Return && select_literal_model(
            c,
            product,
            c.deps[nodes[i]]->Return_0,
            vv,
        ) is Some,
    ensures
        select_matches(c, nodes, product, vv).len() >= 1,
    decreases nodes.len(),
{
    if i == 0 {
    } else {
        lemma_select_matches_one(c, nodes.subrange(1, nodes.len() as int), product, vv, i - 1);
    }
}

/// Conflict detection: when a `Select` reaches its rule stage, every
/// candidate rule has completed without throwing, and at least two of them
/// returned values that pass the literal test, the select completes with
/// the conflict throw.  (In particular, two rules yielding distinct passing
/// values conflict.)
pub proof fn lemma_select_conflict(s: SelectNodeV, c: ContextV, vv: Option<Key>, i: int, j: int)
    requires
        step_defined(NodeV::Select(s), c),
        needs_variant_fetch(s, c) ==> c.deps.contains_key(variants_node_model(s, c))
            && c.deps[variants_node_model(s, c)] is Noop,
        (match s.selector.variant_key {
            Some(k) => vv is Some && find_variant(s.variants, k) == vv,
            None => vv is None,
        }),
        select_literal_model(c, s.selector.product, s.subject, vv) is None,
        forall|p: int| 0 <= p < gen_nodes_model(c, s.subject, s.selector.product, s.variants).len()
            ==> c.deps.contains_key(gen_nodes_model(c, s.subject, s.selector.product, s.variants)[p])
            && !(c.deps[gen_nodes_model(c, s.subject, s.selector.product, s.variants)[p]] is Throw),
        0 <= i < j < gen_nodes_model(c, s.subject, s.selector.product, s.variants).len(),
        ({
            let nodes = gen_nodes_model(c, s.subject, s.selector.product, s.variants);
            &&& c.deps[nodes[i]] is Return
            &&& select_literal_model(c, s.selector.product, c.deps[nodes[i]]->Return_0, vv) is Some
            &&& c.deps[nodes[j]] is Return
            &&& select_literal_model(c, s.selector.product, c.deps[nodes[j]]->Return_0, vv) is Some
        }),
    ensures
        select_step_model(s, c) == StateV::Complete(CompleteV::Throw(msg_conflict())),
{
    let nodes = gen_nodes_model(c, s.subject, s.selector.product, s.variants);
    lemma_gather_select_complete(c, nodes, s.selector.product, vv);
    lemma_select_matches_two(c, nodes, s.selector.product, vv, i, j);
}

} // verus!
