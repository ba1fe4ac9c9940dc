//! The mathematical semantics of node stepping: one pure function from a
//! node and everything a step may observe to the resulting state.
//!
//! The executable `step` in `step.rs` is proved to return exactly what these
//! functions denote, which is what makes stepping deterministic: the result
//! is a function of the node, the completions of already-known dependencies,
//! the registry, and the host bridge's model, and of nothing else.

use vstd::prelude::*;
use crate::bridge::HostModel;
use crate::keys::{Key, TypeId, find_variant};
use crate::nodes::{
    ArgV, CompleteV, NodeV, ProjectFieldNodeV, RunnableV, SelectDependenciesNodeV, SelectNodeV,
    SelectProjectionNodeV, StateV, TaskNodeV, create_model,
};
use crate::selectors;
use crate::tasks::{TasksV, gen_tasks_model};

verus! {

/// Everything one step observes: the completions of already-known
/// dependencies, the registry, and the host bridge's model.
#[verifier::ext_equal]
pub struct ContextV {
    pub deps: Map<NodeV, CompleteV>,
    pub tasks: TasksV,
    pub host: HostModel,
}

/// Reason given when a `Select` carries a variant key that the variants in
/// scope do not configure.
pub open spec fn msg_no_variant_key() -> Seq<char> {
    "A matching variant key was not configured in variants."@
}

/// Reason given when no rule was available to compute the value.
pub open spec fn msg_no_task() -> Seq<char> {
    "No task was available to compute the value."@
}

/// Reason given when the product listing dependencies could not be computed.
pub open spec fn msg_no_dep_product() -> Seq<char> {
    "Could not compute the dep product to determine deps."@
}

/// Reason given when the input product of a projection could not be
/// computed.
pub open spec fn msg_no_input_product() -> Seq<char> {
    "Could not compute the input product to project its field."@
}

/// Reason given when a rule input resolved to nothing.
pub open spec fn msg_missing_input() -> Seq<char> {
    "Was missing at least one input."@
}

/// Failure message when several rules produce a value for the same select.
pub open spec fn msg_conflict() -> Seq<char> {
    "Conflicting values produced for subject and type."@
}

/// Failure message when an explicitly declared dependency has no source.
pub open spec fn msg_no_explicit_dep() -> Seq<char> {
    "No source of explicit dep."@
}

/// Failure message when a projected dependency has no source.
pub open spec fn msg_no_projected_dep() -> Seq<char> {
    "No source of projected dependency."@
}

/// Whether `item` satisfies the constraint `superclass`: either by exact
/// type or by the host's subclass relation.
pub open spec fn isinstance_model(c: ContextV, item: Key, superclass: TypeId) -> bool {
    item.type_id == superclass || (c.host.subclass)(item.type_id, superclass)
}

/// Is-a check of one candidate against a product, refined by a required
/// variant value: when one is required, the candidate's `name` field must
/// equal it.
pub open spec fn literal_single_model(c: ContextV, product: TypeId, candidate: Key, variant_value: Option<Key>) -> Option<Key> {
    if !isinstance_model(c, candidate, product) {
        None
    } else {
        match variant_value {
            Some(vv) => if (c.host.project)(candidate, c.tasks.field_name) == vv {
                Some(candidate)
            } else {
                None
            },
            None => Some(candidate),
        }
    }
}

/// The first child, in declaration order, that passes the literal test.
pub open spec fn first_child_match(c: ContextV, product: TypeId, children: Seq<Key>, variant_value: Option<Key>) -> Option<Key>
    decreases children.len(),
{
    if children.len() == 0 {
        None
    } else {
        match literal_single_model(c, product, children[0], variant_value) {
            Some(k) => Some(k),
            None => first_child_match(c, product, children.subrange(1, children.len() as int), variant_value),
        }
    }
}

/// Is-a or has-a match between a candidate and the requested product: the
/// candidate itself if it passes the literal test, otherwise the first of
/// its `products` children that does, provided the candidate has products.
pub open spec fn select_literal_model(c: ContextV, product: TypeId, candidate: Key, variant_value: Option<Key>) -> Option<Key> {
    match literal_single_model(c, product, candidate, variant_value) {
        Some(k) => Some(k),
        None => if isinstance_model(c, candidate, c.tasks.type_has_products) {
            first_child_match(
                c,
                product,
                (c.host.project_multi)(candidate, c.tasks.field_products),
                variant_value,
            )
        } else {
            None
        },
    }
}

/// A bare `Select` node for a product against a subject, propagating the
/// given variants.
pub open spec fn select_node_model(subject: Key, variants: Seq<(Key, Key)>, product: TypeId) -> NodeV {
    NodeV::Select(
        SelectNodeV {
            subject,
            variants,
            selector: selectors::Select { product, variant_key: None },
        },
    )
}

/// The `Task` nodes for each rule that might compute the given product for
/// the given subject, in registration order.
pub open spec fn gen_nodes_model(c: ContextV, subject: Key, product: TypeId, variants: Seq<(Key, Key)>) -> Seq<NodeV> {
    match gen_tasks_model(c.tasks, subject.type_id, product) {
        Some(rules) => rules.map_values(
            |tv: crate::tasks::TaskV| NodeV::Task(TaskNodeV { subject, product, variants, selector: tv }),
        ),
        None => Seq::empty(),
    }
}

/// The partial outcome of walking a list of dependencies: either the first
/// failure, to be propagated verbatim, or the still-missing dependencies
/// together with the values collected so far, both in walk order.
#[verifier::ext_equal]
pub enum Gather {
    Thrown(Seq<char>),
    Partial(Seq<NodeV>, Seq<Key>),
}

/// Prepends a collected value to a gather outcome.
pub open spec fn prepend_value(k: Key, g: Gather) -> Gather {
    match g {
        Gather::Thrown(m) => Gather::Thrown(m),
        Gather::Partial(ds, vs) => Gather::Partial(ds, seq![k] + vs),
    }
}

/// Prepends a missing dependency to a gather outcome.
pub open spec fn prepend_dep(n: NodeV, g: Gather) -> Gather {
    match g {
        Gather::Thrown(m) => Gather::Thrown(m),
        Gather::Partial(ds, vs) => Gather::Partial(seq![n] + ds, vs),
    }
}

/// Extends a gather outcome on the left with already-walked dependencies
/// and values.
pub open spec fn combine(ds: Seq<NodeV>, vs: Seq<Key>, g: Gather) -> Gather {
    match g {
        Gather::Thrown(m) => Gather::Thrown(m),
        Gather::Partial(ds2, vs2) => Gather::Partial(ds + ds2, vs + vs2),
    }
}

/// Nothing walked yet extends a gather outcome into itself.
pub proof fn lemma_combine_empty(g: Gather)
    ensures
        combine(Seq::empty(), Seq::empty(), g) == g,
{
    match g {
        Gather::Thrown(_) => {},
        Gather::Partial(ds, vs) => {
            assert(Seq::empty() + ds =~= ds);
            assert(Seq::empty() + vs =~= vs);
        },
    }
}

/// A finished walk closes a gather outcome.
pub proof fn lemma_combine_done(ds: Seq<NodeV>, vs: Seq<Key>)
    ensures
        combine(ds, vs, Gather::Partial(Seq::empty(), Seq::empty())) == Gather::Partial(ds, vs),
{
    assert(ds + Seq::<NodeV>::empty() =~= ds);
    assert(vs + Seq::<Key>::empty() =~= vs);
}

/// Walking one collected value more moves it across `combine`.
pub proof fn lemma_combine_value(ds: Seq<NodeV>, vs: Seq<Key>, k: Key, g: Gather)
    ensures
        combine(ds, vs, prepend_value(k, g)) == combine(ds, vs.push(k), g),
{
    match g {
        Gather::Thrown(_) => {},
        Gather::Partial(ds2, vs2) => {
            assert(vs + (seq![k] + vs2) =~= vs.push(k) + vs2);
        },
    }
}

/// Walking one missing dependency more moves it across `combine`.
pub proof fn lemma_combine_dep(ds: Seq<NodeV>, vs: Seq<Key>, n: NodeV, g: Gather)
    ensures
        combine(ds, vs, prepend_dep(n, g)) == combine(ds.push(n), vs, g),
{
    match g {
        Gather::Thrown(_) => {},
        Gather::Partial(ds2, vs2) => {
            assert(ds + (seq![n] + ds2) =~= ds.push(n) + ds2);
        },
    }
}

/// Walks the candidate rule nodes of a `Select` in order: a thrown
/// dependency propagates; a returned value is kept when it passes the
/// literal test; a noop skips the candidate; a missing completion records
/// the dependency.
pub open spec fn gather_select(c: ContextV, nodes: Seq<NodeV>, product: TypeId, variant_value: Option<Key>) -> Gather
    decreases nodes.len(),
{
    if nodes.len() == 0 {
        Gather::Partial(Seq::empty(), Seq::empty())
    } else {
        let n0 = nodes[0];
        let rest = gather_select(c, nodes.subrange(1, nodes.len() as int), product, variant_value);
        if c.deps.contains_key(n0) {
            match c.deps[n0] {
                CompleteV::Return(v) => match select_literal_model(c, product, v, variant_value) {
                    Some(k) => prepend_value(k, rest),
                    None => rest,
                },
                CompleteV::Noop(_, _) => rest,
                CompleteV::Throw(m) => Gather::Thrown(m),
            }
        } else {
            prepend_dep(n0, rest)
        }
    }
}

/// Walks the dependency subjects of a `SelectDependencies` in order: a
/// returned value is appended; a noop is fatal; a throw propagates; a
/// missing completion records the dependency.
pub open spec fn gather_deps(c: ContextV, s: SelectDependenciesNodeV, subjects: Seq<Key>) -> Gather
    decreases subjects.len(),
{
    if subjects.len() == 0 {
        Gather::Partial(Seq::empty(), Seq::empty())
    } else {
        let n0 = select_node_model(subjects[0], s.variants, s.selector.product);
        let rest = gather_deps(c, s, subjects.subrange(1, subjects.len() as int));
        if c.deps.contains_key(n0) {
            match c.deps[n0] {
                CompleteV::Return(v) => prepend_value(v, rest),
                CompleteV::Noop(_, _) => Gather::Thrown(msg_no_explicit_dep()),
                CompleteV::Throw(m) => Gather::Thrown(m),
            }
        } else {
            prepend_dep(n0, rest)
        }
    }
}

/// The partial outcome of walking a rule clause: the first failure, the
/// first input that resolved to nothing, or the still-missing dependencies
/// together with the input values collected so far.
#[verifier::ext_equal]
pub enum TaskGather {
    Thrown(Seq<char>),
    Nooped(NodeV),
    Partial(Seq<NodeV>, Seq<Key>),
}

/// Prepends a collected input value to a clause walk outcome.
pub open spec fn task_prepend_value(k: Key, g: TaskGather) -> TaskGather {
    match g {
        TaskGather::Thrown(m) => TaskGather::Thrown(m),
        TaskGather::Nooped(n) => TaskGather::Nooped(n),
        TaskGather::Partial(ds, vs) => TaskGather::Partial(ds, seq![k] + vs),
    }
}

/// Prepends a missing dependency to a clause walk outcome.
pub open spec fn task_prepend_dep(n: NodeV, g: TaskGather) -> TaskGather {
    match g {
        TaskGather::Thrown(m) => TaskGather::Thrown(m),
        TaskGather::Nooped(n2) => TaskGather::Nooped(n2),
        TaskGather::Partial(ds, vs) => TaskGather::Partial(seq![n] + ds, vs),
    }
}

/// Extends a clause walk outcome on the left.
pub open spec fn task_combine(ds: Seq<NodeV>, vs: Seq<Key>, g: TaskGather) -> TaskGather {
    match g {
        TaskGather::Thrown(m) => TaskGather::Thrown(m),
        TaskGather::Nooped(n) => TaskGather::Nooped(n),
        TaskGather::Partial(ds2, vs2) => TaskGather::Partial(ds + ds2, vs + vs2),
    }
}

/// Nothing walked yet extends a clause walk outcome into itself.
pub proof fn lemma_task_combine_empty(g: TaskGather)
    ensures
        task_combine(Seq::empty(), Seq::empty(), g) == g,
{
    match g {
        TaskGather::Thrown(_) => {},
        TaskGather::Nooped(_) => {},
        TaskGather::Partial(ds, vs) => {
            assert(Seq::empty() + ds =~= ds);
            assert(Seq::empty() + vs =~= vs);
        },
    }
}

/// A finished walk closes a clause walk outcome.
pub proof fn lemma_task_combine_done(ds: Seq<NodeV>, vs: Seq<Key>)
    ensures
        task_combine(ds, vs, TaskGather::Partial(Seq::empty(), Seq::empty())) == TaskGather::Partial(ds, vs),
{
    assert(ds + Seq::<NodeV>::empty() =~= ds);
    assert(vs + Seq::<Key>::empty() =~= vs);
}

/// Walking one collected input more moves it across `task_combine`.
pub proof fn lemma_task_combine_value(ds: Seq<NodeV>, vs: Seq<Key>, k: Key, g: TaskGather)
    ensures
        task_combine(ds, vs, task_prepend_value(k, g)) == task_combine(ds, vs.push(k), g),
{
    match g {
        TaskGather::Thrown(_) => {},
        TaskGather::Nooped(_) => {},
        TaskGather::Partial(ds2, vs2) => {
            assert(vs + (seq![k] + vs2) =~= vs.push(k) + vs2);
        },
    }
}

/// Walking one missing dependency more moves it across `task_combine`.
pub proof fn lemma_task_combine_dep(ds: Seq<NodeV>, vs: Seq<Key>, n: NodeV, g: TaskGather)
    ensures
        task_combine(ds, vs, task_prepend_dep(n, g)) == task_combine(ds.push(n), vs, g),
{
    match g {
        TaskGather::Thrown(_) => {},
        TaskGather::Nooped(_) => {},
        TaskGather::Partial(ds2, vs2) => {
            assert(ds + (seq![n] + ds2) =~= ds.push(n) + ds2);
        },
    }
}

/// Walks a rule clause in order: a returned value is appended; a noop stops
/// the walk, blaming the input node; a throw propagates; a missing
/// completion records the dependency.
pub open spec fn gather_task(c: ContextV, subject: Key, variants: Seq<(Key, Key)>, clause: Seq<selectors::Selector>) -> TaskGather
    decreases clause.len(),
{
    if clause.len() == 0 {
        TaskGather::Partial(Seq::empty(), Seq::empty())
    } else {
        let n0 = create_model(clause[0], subject, variants);
        let rest = gather_task(c, subject, variants, clause.subrange(1, clause.len() as int));
        if c.deps.contains_key(n0) {
            match c.deps[n0] {
                CompleteV::Return(v) => task_prepend_value(v, rest),
                CompleteV::Noop(_, _) => TaskGather::Nooped(n0),
                CompleteV::Throw(m) => TaskGather::Thrown(m),
            }
        } else {
            task_prepend_dep(n0, rest)
        }
    }
}

/// Whether a `Select` must first request the subject's declared variants:
/// the subject satisfies the address constraint and the target product is
/// not the variants holder itself.
pub open spec fn needs_variant_fetch(s: SelectNodeV, c: ContextV) -> bool {
    isinstance_model(c, s.subject, c.tasks.type_address)
        && s.selector.product != c.tasks.type_has_variants
}

/// The node that requests the subject's declared variants.
pub open spec fn variants_node_model(s: SelectNodeV, c: ContextV) -> NodeV {
    select_node_model(s.subject, s.variants, c.tasks.type_has_variants)
}

/// Stepping is defined for every node and context except a `Select` whose
/// variants request has already returned a value: merging a returned
/// variant mapping into the variants in scope is intentionally left open,
/// so callers must not supply such a completion.
pub open spec fn step_defined(n: NodeV, c: ContextV) -> bool {
    match n {
        NodeV::Select(s) => !(needs_variant_fetch(s, c) && c.deps.contains_key(
            variants_node_model(s, c),
        ) && c.deps[variants_node_model(s, c)] is Return),
        _ => true,
    }
}

/// The variant gate and the match stages of a `Select`, after any variants
/// request has resolved.
pub open spec fn select_match_model(s: SelectNodeV, c: ContextV, variant_value: Option<Key>) -> StateV {
    match select_literal_model(c, s.selector.product, s.subject, variant_value) {
        Some(k) => StateV::Complete(CompleteV::Return(k)),
        None => match gather_select(
            c,
            gen_nodes_model(c, s.subject, s.selector.product, s.variants),
            s.selector.product,
            variant_value,
        ) {
            Gather::Thrown(m) => StateV::Complete(CompleteV::Throw(m)),
            Gather::Partial(ds, ms) => if ds.len() > 0 {
                StateV::Waiting(ds)
            } else if ms.len() > 1 {
                StateV::Complete(CompleteV::Throw(msg_conflict()))
            } else if ms.len() == 1 {
                StateV::Complete(CompleteV::Return(ms[0]))
            } else {
                StateV::Complete(CompleteV::Noop(msg_no_task(), None))
            },
        },
    }
}

/// The variant gate of a `Select`: an unconfigured variant key is a noop;
/// a configured one fixes the required variant value.
pub open spec fn select_gate_model(s: SelectNodeV, c: ContextV) -> StateV {
    match s.selector.variant_key {
        Some(k) => match find_variant(s.variants, k) {
            None => StateV::Complete(CompleteV::Noop(msg_no_variant_key(), None)),
            Some(vv) => select_match_model(s, c, Some(vv)),
        },
        None => select_match_model(s, c, None),
    }
}

/// One step of a `Select` node.
pub open spec fn select_step_model(s: SelectNodeV, c: ContextV) -> StateV {
    if needs_variant_fetch(s, c) {
        let vnode = variants_node_model(s, c);
        if c.deps.contains_key(vnode) {
            match c.deps[vnode] {
                CompleteV::Return(_) => vstd::pervasive::arbitrary(),
                CompleteV::Noop(_, _) => select_gate_model(s, c),
                CompleteV::Throw(m) => StateV::Complete(CompleteV::Throw(m)),
            }
        } else {
            StateV::Waiting(seq![vnode])
        }
    } else {
        select_gate_model(s, c)
    }
}

/// The node requesting the product that lists the dependencies of a
/// `SelectDependencies`.
pub open spec fn dep_product_node_model(s: SelectDependenciesNodeV) -> NodeV {
    select_node_model(s.subject, s.variants, s.selector.dep_product)
}

/// One step of a `SelectDependencies` node.
pub open spec fn select_dependencies_step_model(s: SelectDependenciesNodeV, c: ContextV) -> StateV {
    let dpn = dep_product_node_model(s);
    if c.deps.contains_key(dpn) {
        match c.deps[dpn] {
            CompleteV::Return(v) => match gather_deps(c, s, (c.host.project_multi)(v, s.selector.field)) {
                Gather::Thrown(m) => StateV::Complete(CompleteV::Throw(m)),
                Gather::Partial(ds, vs) => if ds.len() > 0 {
                    StateV::Waiting(ds)
                } else {
                    StateV::Complete(CompleteV::Return((c.host.store)(vs)))
                },
            },
            CompleteV::Noop(_, _) => StateV::Complete(CompleteV::Noop(msg_no_dep_product(), Some(dpn))),
            CompleteV::Throw(m) => StateV::Complete(CompleteV::Throw(m)),
        }
    } else {
        StateV::Waiting(seq![dpn])
    }
}

/// One step of a `ProjectField` node.
pub open spec fn project_field_step_model(p: ProjectFieldNodeV, c: ContextV) -> StateV {
    let inode = select_node_model(p.subject, p.variants, p.selector.input_product);
    if c.deps.contains_key(inode) {
        match c.deps[inode] {
            CompleteV::Return(v) => StateV::Runnable(
                RunnableV {
                    func: c.host.project_func,
                    args: seq![ArgV::Value(v), ArgV::Value(p.selector.field)],
                    cacheable: true,
                },
            ),
            CompleteV::Noop(_, _) => StateV::Complete(CompleteV::Noop(msg_no_input_product(), Some(inode))),
            CompleteV::Throw(m) => StateV::Complete(CompleteV::Throw(m)),
        }
    } else {
        StateV::Waiting(seq![inode])
    }
}

/// The inner `ProjectField` node of a `SelectProjection`.
pub open spec fn project_field_node_model(s: SelectProjectionNodeV) -> NodeV {
    NodeV::ProjectField(
        ProjectFieldNodeV { subject: s.subject, variants: s.variants, selector: s.selector },
    )
}

/// One step of a `SelectProjection` node.
pub open spec fn select_projection_step_model(s: SelectProjectionNodeV, c: ContextV) -> StateV {
    let pnode = project_field_node_model(s);
    if c.deps.contains_key(pnode) {
        match c.deps[pnode] {
            CompleteV::Return(projected) => {
                let onode = select_node_model(projected, s.variants, s.selector.product);
                if c.deps.contains_key(onode) {
                    match c.deps[onode] {
                        CompleteV::Return(w) => StateV::Complete(CompleteV::Return(w)),
                        CompleteV::Noop(_, _) => StateV::Complete(
                            CompleteV::Throw(msg_no_projected_dep()),
                        ),
                        CompleteV::Throw(m) => StateV::Complete(CompleteV::Throw(m)),
                    }
                } else {
                    StateV::Waiting(seq![onode])
                }
            },
            CompleteV::Noop(_, _) => StateV::Complete(CompleteV::Noop(msg_no_input_product(), Some(pnode))),
            CompleteV::Throw(m) => StateV::Complete(CompleteV::Throw(m)),
        }
    } else {
        StateV::Waiting(seq![pnode])
    }
}

/// One step of a `Task` node.
pub open spec fn task_step_model(t: TaskNodeV, c: ContextV) -> StateV {
    match gather_task(c, t.subject, t.variants, t.selector.clause) {
        TaskGather::Thrown(m) => StateV::Complete(CompleteV::Throw(m)),
        TaskGather::Nooped(n) => StateV::Complete(CompleteV::Noop(msg_missing_input(), Some(n))),
        TaskGather::Partial(ds, vs) => if ds.len() > 0 {
            StateV::Waiting(ds)
        } else {
            StateV::Runnable(
                RunnableV {
                    func: t.selector.func,
                    args: vs.map_values(|k: Key| ArgV::Value(k)),
                    cacheable: t.selector.cacheable,
                },
            )
        },
    }
}

/// One step of any node: a total function of the node and the context,
/// except where `step_defined` rules the context out.
pub open spec fn step_model(n: NodeV, c: ContextV) -> StateV {
    match n {
        NodeV::Select(s) => select_step_model(s, c),
        NodeV::SelectLiteral(s) => StateV::Complete(CompleteV::Return(s.selector.subject)),
        NodeV::SelectDependencies(s) => select_dependencies_step_model(s, c),
        NodeV::ProjectField(p) => project_field_step_model(p, c),
        NodeV::SelectProjection(s) => select_projection_step_model(s, c),
        NodeV::Task(t) => task_step_model(t, c),
    }
}

} // verus!
