//! Executing a single step of a node against a read-only view of its
//! already-completed dependencies, the registry, and the host bridge.
//!
//! Every `step` here is proved to return exactly what the corresponding
//! model function in `semantics` denotes.

use vstd::prelude::*;
use vstd::string::StringExecFns;
use crate::bridge::Host;
use crate::keys::{Key, TypeConstraint, TypeId, Variants, clone_variants, variant_value};
use crate::nodes::{
    Arg, ArgV, Complete, Completions, Node, NodeV, ProjectField, Runnable, Select,
    SelectDependencies, SelectLiteral, SelectProjection, State, Task, create_model,
};
use crate::selectors::Selector;
use crate::semantics::{
    ContextV, combine, task_combine, gather_deps, gather_select, gather_task,
    first_child_match, gen_nodes_model, isinstance_model, dep_product_node_model,
    lemma_combine_dep, lemma_combine_done, lemma_combine_empty, lemma_combine_value,
    lemma_task_combine_dep, lemma_task_combine_done, lemma_task_combine_empty,
    lemma_task_combine_value, literal_single_model, needs_variant_fetch,
    project_field_node_model, project_field_step_model, select_dependencies_step_model,
    select_literal_model, select_node_model,
    select_projection_step_model, select_step_model, step_defined, step_model,
    task_step_model, variants_node_model,
};
use crate::tasks::Tasks;

verus! {

/// Everything one step may consult: the completions of already-known
/// dependencies, the registry, and the host bridge.
pub struct StepContext<'a, H: Host> {
    pub deps: &'a Completions,
    pub tasks: &'a Tasks,
    pub host: &'a H,
}

impl<'a, H: Host> View for StepContext<'a, H> {
    type V = ContextV;

    open spec fn view(&self) -> ContextV {
        ContextV { deps: self.deps.view(), tasks: self.tasks.view(), host: self.host.model() }
    }
}

impl<'a, H: Host> StepContext<'a, H> {
    /// The completion store is well formed.
    pub open spec fn wf(&self) -> bool {
        self.deps.wf()
    }

    /// The completion recorded for a node, if any.
    pub fn get(&self, node: &Node) -> (r: Option<&Complete>)
        requires
            self.wf(),
        ensures
            (match r {
                Some(c) => self@.deps.contains_key(node@) && c@ == self@.deps[node@],
                None => !self@.deps.contains_key(node@),
            }),
    {
        self.deps.get(node)
    }

    /// The constraint naming addressable subjects.
    pub fn type_address(&self) -> (r: &TypeConstraint)
        ensures
            *r == self@.tasks.type_address,
    {
        &self.tasks.type_address
    }

    /// The constraint naming variant-holding subjects.
    pub fn type_has_variants(&self) -> (r: &TypeConstraint)
        ensures
            *r == self@.tasks.type_has_variants,
    {
        &self.tasks.type_has_variants
    }

    /// Whether `item` satisfies the constraint `superclass`, by exact type
    /// or by the host's subclass relation.
    pub fn isinstance(&self, item: &Key, superclass: &TypeId) -> (r: bool)
        ensures
            r == isinstance_model(self@, *item, *superclass),
    {
        if item.type_id == *superclass {
            true
        } else {
            self.host.issubclass(&item.type_id, superclass)
        }
    }

    /// Whether `item` carries products of its own.
    pub fn has_products(&self, item: &Key) -> (r: bool)
        ensures
            r == isinstance_model(self@, *item, self@.tasks.type_has_products),
    {
        self.isinstance(item, &self.tasks.type_has_products)
    }

    /// The `name` field of a host value.
    pub fn field_name(&self, item: &Key) -> (r: Key)
        ensures
            r == (self@.host.project)(*item, self@.tasks.field_name),
    {
        self.host.project(item, &self.tasks.field_name)
    }

    /// The `variants` field of a host value.
    pub fn field_variants(&self, item: &Key) -> (r: Key)
        ensures
            r == (self@.host.project)(*item, self@.tasks.field_variants),
    {
        self.host.project(item, &self.tasks.field_variants)
    }

    /// The ordered `products` children of a host value.
    pub fn field_products(&self, item: &Key) -> (r: Vec<Key>)
        ensures
            r@ == (self@.host.project_multi)(*item, self@.tasks.field_products),
    {
        self.host.project_multi(item, &self.tasks.field_products)
    }

    /// Interns an ordered list of keys as a single host value.
    pub fn store_list(&self, items: Vec<Key>) -> (r: Key)
        ensures
            r == (self@.host.store)(items@),
    {
        self.host.store_list(items)
    }

    /// A `Runnable` that asks the host to project `field` out of `item`.
    pub fn project(&self, item: Key, field: Key) -> (r: Runnable)
        ensures
            r@.func == self@.host.project_func,
            r@.args == seq![ArgV::Value(item), ArgV::Value(field)],
            r@.cacheable,
    {
        let mut args: Vec<Arg> = Vec::new();
        args.push(Arg::Value(item));
        args.push(Arg::Value(field));
        proof {
            assert(args.deep_view() =~= seq![ArgV::Value(item), ArgV::Value(field)]);
        }
        Runnable { func: self.host.project_function(), args, cacheable: true }
    }

    /// The ordered elements of the collection-valued field `item.field`.
    pub fn project_multi(&self, item: &Key, field: &Key) -> (r: Vec<Key>)
        ensures
            r@ == (self@.host.project_multi)(*item, *field),
    {
        self.host.project_multi(item, field)
    }

    /// `Task` nodes for each rule that might compute the given product for
    /// the given subject and variants, in registration order.
    #[verifier::loop_isolation(false)]
    pub fn gen_nodes(&self, subject: &Key, product: &TypeId, variants: &Variants) -> (r: Vec<Node>)
        ensures
            r.deep_view() == gen_nodes_model(self@, *subject, *product, variants@),
    {
        match self.tasks.gen_tasks(&subject.type_id, product) {
            Some(rules) => {
                let n = rules.len();
                let mut r: Vec<Node> = Vec::new();
                let mut i: usize = 0;
                while i < n
                    invariant
                        n == rules@.len(),
                        i <= n,
                        r.deep_view().len() == i,
                        forall|j: int| 0 <= j < i ==> r.deep_view()[j] == NodeV::Task(
                            crate::nodes::TaskNodeV {
                                subject: *subject,
                                product: *product,
                                variants: variants@,
                                selector: rules.deep_view()[j],
                            },
                        ),
                    decreases n - i,
                {
                    let ghost prior = r.deep_view();
                    let node = Node::Task(Task {
                        subject: *subject,
                        product: *product,
                        variants: clone_variants(variants),
                        selector: crate::tasks::clone_task(&rules[i]),
                    });
                    proof {
                        assert(node@ == NodeV::Task(crate::nodes::TaskNodeV {
                            subject: *subject,
                            product: *product,
                            variants: variants@,
                            selector: rules.deep_view()[i as int],
                        }));
                    }
                    r.push(node);
                    proof {
                        assert(r.deep_view() =~= prior.push(node@));
                    }
                    i += 1;
                }
                proof {
                    assert(r.deep_view() =~= gen_nodes_model(self@, *subject, *product, variants@));
                }
                r
            },
            None => {
                let r: Vec<Node> = Vec::new();
                proof {
                    assert(r.deep_view() =~= Seq::<NodeV>::empty());
                }
                r
            },
        }
    }
}

/// Copies a node.
pub fn clone_node(n: &Node) -> (r: Node)
    ensures
        r@ == n@,
{
    match n {
        Node::Select(x) => Node::Select(Select {
            subject: x.subject,
            variants: clone_variants(&x.variants),
            selector: x.selector,
        }),
        Node::SelectLiteral(x) => Node::SelectLiteral(SelectLiteral {
            subject: x.subject,
            variants: clone_variants(&x.variants),
            selector: x.selector,
        }),
        Node::SelectDependencies(x) => Node::SelectDependencies(SelectDependencies {
            subject: x.subject,
            variants: clone_variants(&x.variants),
            selector: x.selector,
        }),
        Node::ProjectField(x) => Node::ProjectField(ProjectField {
            subject: x.subject,
            variants: clone_variants(&x.variants),
            selector: x.selector,
        }),
        Node::SelectProjection(x) => Node::SelectProjection(SelectProjection {
            subject: x.subject,
            variants: clone_variants(&x.variants),
            selector: x.selector,
        }),
        Node::Task(x) => Node::Task(Task {
            subject: x.subject,
            product: x.product,
            variants: clone_variants(&x.variants),
            selector: crate::tasks::clone_task(&x.selector),
        }),
    }
}

impl Select {
    /// The product this node is trying to produce.
    pub fn product(&self) -> (r: &TypeId)
        ensures
            *r == self.selector.product,
    {
        &self.selector.product
    }

    /// Is-a check of one candidate against the requested product, refined by
    /// a required variant value.
    fn select_literal_single<'a, H: Host>(
        &self,
        context: &StepContext<'a, H>,
        candidate: &Key,
        variant_value: Option<Key>,
    ) -> (r: Option<Key>)
        ensures
            r == literal_single_model(context@, self.selector.product, *candidate, variant_value),
    {
        if !context.isinstance(candidate, &self.selector.product) {
            return None;
        }
        match variant_value {
            Some(vv) => {
                if context.field_name(candidate) != vv {
                    None
                } else {
                    Some(*candidate)
                }
            },
            None => Some(*candidate),
        }
    }

    /// Is-a or has-a match between the given candidate and the requested
    /// product.
    #[verifier::loop_isolation(false)]
    fn select_literal<'a, H: Host>(
        &self,
        context: &StepContext<'a, H>,
        candidate: &Key,
        variant_value: Option<Key>,
    ) -> (r: Option<Key>)
        ensures
            r == select_literal_model(context@, self.selector.product, *candidate, variant_value),
    {
        match self.select_literal_single(context, candidate, variant_value) {
            Some(k) => Some(k),
            None => {
                if context.has_products(candidate) {
                    let children = context.field_products(candidate);
                    let n = children.len();
                    let mut i: usize = 0;
                    proof {
                        assert(children@.subrange(0, n as int) =~= children@);
                    }
                    while i < n
                        invariant
                            n == children@.len(),
                            i <= n,
                            first_child_match(context@, self.selector.product, children@, variant_value)
                                == first_child_match(
                                context@,
                                self.selector.product,
                                children@.subrange(i as int, n as int),
                                variant_value,
                            ),
                        decreases n - i,
                    {
                        proof {
                            assert(children@.subrange(i as int, n as int)[0] == children@[i as int]);
                            assert(children@.subrange(i as int, n as int).subrange(
                                1,
                                (n - i) as int,
                            ) =~= children@.subrange(i + 1, n as int));
                        }
                        let child = children[i];
                        if let Some(k) = self.select_literal_single(context, &child, variant_value) {
                            return Some(k);
                        }
                        i += 1;
                    }
                    None
                } else {
                    None
                }
            },
        }
    }
}

impl SelectLiteral {
    /// Unconditionally completes with the literal subject carried by the
    /// selector; the dynamic subject and the variants are discarded.
    pub fn step<'a, H: Host>(&self, _context: &StepContext<'a, H>) -> (r: State)
        ensures
            r@ == step_model(NodeV::SelectLiteral(self@), _context@),
    {
        State::Complete(Complete::Return(self.selector.subject))
    }
}

impl ProjectField {
    /// Emits a `Runnable` that projects the selector's field on the computed
    /// input value.
    pub fn step<'a, H: Host>(&self, context: &StepContext<'a, H>) -> (r: State)
        requires
            context.wf(),
        ensures
            r@ == project_field_step_model(self@, context@),
    {
        let input_node = Node::create(
            Selector::select(self.selector.input_product),
            self.subject,
            clone_variants(&self.variants),
        );
        proof {
            assert(input_node@ == select_node_model(self.subject, self.variants@, self.selector.input_product));
        }
        match context.get(&input_node) {
            Some(c) => match c {
                Complete::Return(value) => State::Runnable(
                    context.project(*value, self.selector.field),
                ),
                Complete::Noop(_, _) => State::Complete(
                    Complete::Noop(
                        "Could not compute the input product to project its field.",
                        Some(input_node),
                    ),
                ),
                Complete::Throw(msg) => State::Complete(Complete::Throw(msg.clone())),
            },
            None => {
                let r = State::Waiting(vec![input_node]);
                proof {
                    assert(r@ is Waiting);
                }
                r
            },
        }
    }
}

impl SelectProjection {
    /// Selects the product for the subject projected by the inner
    /// `ProjectField` node.
    pub fn step<'a, H: Host>(&self, context: &StepContext<'a, H>) -> (r: State)
        requires
            context.wf(),
        ensures
            r@ == select_projection_step_model(self@, context@),
    {
        let input_node = Node::ProjectField(ProjectField {
            subject: self.subject,
            variants: clone_variants(&self.variants),
            selector: self.selector,
        });
        proof {
            assert(input_node@ == project_field_node_model(self@));
        }
        let projected_subject: Key = match context.get(&input_node) {
            Some(c) => match c {
                Complete::Return(value) => *value,
                Complete::Noop(_, _) => {
                    return State::Complete(
                        Complete::Noop(
                            "Could not compute the input product to project its field.",
                            Some(input_node),
                        ),
                    );
                },
                Complete::Throw(msg) => {
                    return State::Complete(Complete::Throw(msg.clone()));
                },
            },
            None => {
                return State::Waiting(vec![input_node]);
            },
        };

        let output_node = Node::create(
            Selector::select(self.selector.product),
            projected_subject,
            clone_variants(&self.variants),
        );
        proof {
            assert(output_node@ == select_node_model(projected_subject, self.variants@, self.selector.product));
        }
        match context.get(&output_node) {
            Some(c) => match c {
                Complete::Return(value) => State::Complete(Complete::Return(*value)),
                Complete::Noop(_, _) => State::Complete(
                    Complete::Throw(String::from_str("No source of projected dependency.")),
                ),
                Complete::Throw(msg) => State::Complete(Complete::Throw(msg.clone())),
            },
            None => State::Waiting(vec![output_node]),
        }
    }
}

impl SelectDependencies {
    /// The product this node is trying to produce for each dependency.
    pub fn product(&self) -> (r: &TypeId)
        ensures
            *r == self.selector.product,
    {
        &self.selector.product
    }

    /// Selects the dependency-listing product, then the product for each of
    /// its members in declaration order, and interns the ordered results.
    #[verifier::loop_isolation(false)]
    pub fn step<'a, H: Host>(&self, context: &StepContext<'a, H>) -> (r: State)
        requires
            context.wf(),
        ensures
            r@ == select_dependencies_step_model(self@, context@),
    {
        let dep_product_node = Node::create(
            Selector::select(self.selector.dep_product),
            self.subject,
            clone_variants(&self.variants),
        );
        proof {
            assert(dep_product_node@ == dep_product_node_model(self@));
        }
        let dep_product: Key = match context.get(&dep_product_node) {
            Some(c) => match c {
                Complete::Return(value) => *value,
                Complete::Noop(_, _) => {
                    return State::Complete(
                        Complete::Noop(
                            "Could not compute the dep product to determine deps.",
                            Some(dep_product_node),
                        ),
                    );
                },
                Complete::Throw(msg) => {
                    return State::Complete(Complete::Throw(msg.clone()));
                },
            },
            None => {
                return State::Waiting(vec![dep_product_node]);
            },
        };

        let dep_subjects = context.project_multi(&dep_product, &self.selector.field);
        let ghost subjects = dep_subjects@;
        let n = dep_subjects.len();
        let mut dependencies: Vec<Node> = Vec::new();
        let mut dep_values: Vec<Key> = Vec::new();
        let mut i: usize = 0;
        proof {
            lemma_combine_empty(gather_deps(context@, self@, subjects));
            assert(subjects.subrange(0, n as int) =~= subjects);
        }
        while i < n
            invariant
                context.wf(),
                n == dep_subjects@.len(),
                subjects == dep_subjects@,
                i <= n,
                gather_deps(context@, self@, subjects) == combine(
                    dependencies.deep_view(),
                    dep_values@,
                    gather_deps(context@, self@, subjects.subrange(i as int, n as int)),
                ),
            decreases n - i,
        {
            proof {
                assert(subjects.subrange(i as int, n as int)[0] == subjects[i as int]);
                assert(subjects.subrange(i as int, n as int).subrange(1, (n - i) as int)
                    =~= subjects.subrange(i + 1, n as int));
            }
            let dep_node = Node::create(
                Selector::select(self.selector.product),
                dep_subjects[i],
                clone_variants(&self.variants),
            );
            proof {
                assert(dep_node@ == select_node_model(subjects[i as int], self@.variants, self@.selector.product));
            }
            match context.get(&dep_node) {
                Some(c) => match c {
                    Complete::Return(value) => {
                        proof {
                            lemma_combine_value(
                                dependencies.deep_view(),
                                dep_values@,
                                *value,
                                gather_deps(context@, self@, subjects.subrange(i + 1, n as int)),
                            );
                        }
                        dep_values.push(*value);
                    },
                    Complete::Noop(_, _) => {
                        return State::Complete(
                            Complete::Throw(String::from_str("No source of explicit dep.")),
                        );
                    },
                    Complete::Throw(msg) => {
                        return State::Complete(Complete::Throw(msg.clone()));
                    },
                },
                None => {
                    proof {
                        lemma_combine_dep(
                            dependencies.deep_view(),
                            dep_values@,
                            dep_node@,
                            gather_deps(context@, self@, subjects.subrange(i + 1, n as int)),
                        );
                        assert(dependencies.deep_view().push(dep_node@)
                            =~= dependencies.deep_view() + seq![dep_node@]);
                    }
                    let ghost old_deps = dependencies.deep_view();
                    dependencies.push(dep_node);
                    proof {
                        assert(dependencies.deep_view() =~= old_deps.push(dep_node@));
                    }
                },
            }
            i += 1;
        }
        proof {
            lemma_combine_done(dependencies.deep_view(), dep_values@);
        }

        if dependencies.len() > 0 {
            State::Waiting(dependencies)
        } else {
            State::Complete(Complete::Return(context.store_list(dep_values)))
        }
    }
}

impl Select {
    /// Computes a product for a subject: propagates declared variants for
    /// addressable subjects, applies the variant gate, tries the literal
    /// is-a / has-a match, and otherwise consults the candidate rules,
    /// failing on conflicting values.
    #[verifier::loop_isolation(false)]
    pub fn step<'a, H: Host>(&self, context: &StepContext<'a, H>) -> (r: State)
        requires
            context.wf(),
            step_defined(NodeV::Select(self@), context@),
        ensures
            r@ == select_step_model(self@, context@),
    {
        // Request declared variants for the subject, so that if there are
        // any they can be propagated; merging a returned mapping is left
        // open and ruled out by the precondition.
        let needs_fetch = context.isinstance(&self.subject, &context.tasks.type_address)
            && self.selector.product != context.tasks.type_has_variants;
        proof {
            assert(needs_fetch == needs_variant_fetch(self@, context@));
        }
        if needs_fetch {
            let variants_node = Node::create(
                Selector::select(context.tasks.type_has_variants),
                self.subject,
                clone_variants(&self.variants),
            );
            proof {
                assert(variants_node@ == variants_node_model(self@, context@));
            }
            match context.get(&variants_node) {
                Some(c) => match c {
                    Complete::Return(_) => {
                        proof {
                            assert(false);
                        }
                        return vstd::pervasive::unreached();
                    },
                    Complete::Noop(_, _) => {},
                    Complete::Throw(msg) => {
                        return State::Complete(Complete::Throw(msg.clone()));
                    },
                },
                None => {
                    return State::Waiting(vec![variants_node]);
                },
            }
        }

        // If there is a variant key, it must be configured in scope.
        let required_variant: Option<Key> = match self.selector.variant_key {
            Some(k) => match variant_value(&self.variants, k) {
                Some(v) => Some(v),
                None => {
                    return State::Complete(
                        Complete::Noop(
                            "A matching variant key was not configured in variants.",
                            None,
                        ),
                    );
                },
            },
            None => None,
        };

        // If the subject is-a or has-a product, the select is done.
        if let Some(literal_value) = self.select_literal(context, &self.subject, required_variant) {
            return State::Complete(Complete::Return(literal_value));
        }

        // Otherwise attempt to use the configured rules to compute the
        // value, collecting every missing dependency.
        let dep_nodes = context.gen_nodes(&self.subject, &self.selector.product, &self.variants);
        let ghost nodes_v = dep_nodes.deep_view();
        let n = dep_nodes.len();
        let mut dependencies: Vec<Node> = Vec::new();
        let mut matches: Vec<Key> = Vec::new();
        let mut i: usize = 0;
        proof {
            lemma_combine_empty(
                gather_select(context@, nodes_v, self.selector.product, required_variant),
            );
            assert(nodes_v.subrange(0, n as int) =~= nodes_v);
        }
        while i < n
            invariant
                i <= n,
                n == dep_nodes@.len(),
                nodes_v == dep_nodes.deep_view(),
                gather_select(context@, nodes_v, self.selector.product, required_variant)
                    == combine(
                    dependencies.deep_view(),
                    matches@,
                    gather_select(
                        context@,
                        nodes_v.subrange(i as int, n as int),
                        self.selector.product,
                        required_variant,
                    ),
                ),
            decreases n - i,
        {
            proof {
                assert(nodes_v.subrange(i as int, n as int)[0] == nodes_v[i as int]);
                assert(nodes_v.subrange(i as int, n as int).subrange(1, (n - i) as int)
                    =~= nodes_v.subrange(i + 1, n as int));
            }
            let dep_node = &dep_nodes[i];
            match context.get(dep_node) {
                Some(c) => match c {
                    Complete::Return(value) => {
                        match self.select_literal(context, value, required_variant) {
                            Some(v) => {
                                proof {
                                    lemma_combine_value(
                                        dependencies.deep_view(),
                                        matches@,
                                        v,
                                        gather_select(
                                            context@,
                                            nodes_v.subrange(i + 1, n as int),
                                            self.selector.product,
                                            required_variant,
                                        ),
                                    );
                                }
                                matches.push(v);
                            },
                            None => {},
                        }
                    },
                    Complete::Noop(_, _) => {},
                    Complete::Throw(msg) => {
                        return State::Complete(Complete::Throw(msg.clone()));
                    },
                },
                None => {
                    proof {
                        lemma_combine_dep(
                            dependencies.deep_view(),
                            matches@,
                            nodes_v[i as int],
                            gather_select(
                                context@,
                                nodes_v.subrange(i + 1, n as int),
                                self.selector.product,
                                required_variant,
                            ),
                        );
                    }
                    let ghost prior = dependencies.deep_view();
                    dependencies.push(clone_node(dep_node));
                    proof {
                        assert(dependencies.deep_view() =~= prior.push(nodes_v[i as int]));
                    }
                },
            }
            i += 1;
        }
        proof {
            lemma_combine_done(dependencies.deep_view(), matches@);
        }

        if dependencies.len() > 0 {
            // A dependency has not run yet.
            return State::Waiting(dependencies);
        }
        if matches.len() > 1 {
            // Multiple sources produced a value; merging products is an
            // intentional non-goal.
            return State::Complete(
                Complete::Throw(
                    String::from_str("Conflicting values produced for subject and type."),
                ),
            );
        }
        match matches.pop() {
            Some(matched) => State::Complete(Complete::Return(matched)),
            None => State::Complete(
                Complete::Noop("No task was available to compute the value.", None),
            ),
        }
    }
}

impl Task {
    /// Evaluates the rule's clause in order and, once every input value is
    /// available, emits a `Runnable` for the rule's function.
    #[verifier::loop_isolation(false)]
    pub fn step<'a, H: Host>(&self, context: &StepContext<'a, H>) -> (r: State)
        requires
            context.wf(),
        ensures
            r@ == task_step_model(self@, context@),
    {
        let ghost clause_v = self.selector.clause@;
        let n = self.selector.clause.len();
        let mut dependencies: Vec<Node> = Vec::new();
        let mut dep_values: Vec<Key> = Vec::new();
        let mut i: usize = 0;
        proof {
            lemma_task_combine_empty(gather_task(context@, self.subject, self.variants@, clause_v));
            assert(clause_v.subrange(0, n as int) =~= clause_v);
        }
        while i < n
            invariant
                i <= n,
                n == self.selector.clause@.len(),
                gather_task(context@, self.subject, self.variants@, clause_v) == task_combine(
                    dependencies.deep_view(),
                    dep_values@,
                    gather_task(
                        context@,
                        self.subject,
                        self.variants@,
                        clause_v.subrange(i as int, n as int),
                    ),
                ),
            decreases n - i,
        {
            proof {
                assert(clause_v.subrange(i as int, n as int)[0] == clause_v[i as int]);
                assert(clause_v.subrange(i as int, n as int).subrange(1, (n - i) as int)
                    =~= clause_v.subrange(i + 1, n as int));
            }
            let dep_node = Node::create(
                self.selector.clause[i],
                self.subject,
                clone_variants(&self.variants),
            );
            proof {
                assert(dep_node@ == create_model(clause_v[i as int], self.subject, self.variants@));
            }
            match context.get(&dep_node) {
                Some(c) => match c {
                    Complete::Return(value) => {
                        proof {
                            lemma_task_combine_value(
                                dependencies.deep_view(),
                                dep_values@,
                                *value,
                                gather_task(
                                    context@,
                                    self.subject,
                                    self.variants@,
                                    clause_v.subrange(i + 1, n as int),
                                ),
                            );
                        }
                        dep_values.push(*value);
                    },
                    Complete::Noop(_, _) => {
                        return State::Complete(
                            Complete::Noop("Was missing at least one input.", Some(dep_node)),
                        );
                    },
                    Complete::Throw(msg) => {
                        return State::Complete(Complete::Throw(msg.clone()));
                    },
                },
                None => {
                    proof {
                        lemma_task_combine_dep(
                            dependencies.deep_view(),
                            dep_values@,
                            dep_node@,
                            gather_task(
                                context@,
                                self.subject,
                                self.variants@,
                                clause_v.subrange(i + 1, n as int),
                            ),
                        );
                    }
                    let ghost prior = dependencies.deep_view();
                    let ghost dep_node_v = dep_node@;
                    dependencies.push(dep_node);
                    proof {
                        assert(dependencies.deep_view() =~= prior.push(dep_node_v));
                    }
                },
            }
            i += 1;
        }
        proof {
            lemma_task_combine_done(dependencies.deep_view(), dep_values@);
        }

        if dependencies.len() > 0 {
            // A clause entry is still waiting on dependencies.
            State::Waiting(dependencies)
        } else {
            // Ready to run.
            let m = dep_values.len();
            let mut args: Vec<Arg> = Vec::new();
            let mut j: usize = 0;
            while j < m
                invariant
                    j <= m,
                    m == dep_values@.len(),
                    args.deep_view().len() == j,
                    forall|p: int| 0 <= p < j ==> args.deep_view()[p] == ArgV::Value(dep_values@[p]),
                decreases m - j,
            {
                let ghost prior = args.deep_view();
                args.push(Arg::Value(dep_values[j]));
                proof {
                    assert(args.deep_view() =~= prior.push(ArgV::Value(dep_values@[j as int])));
                }
                j += 1;
            }
            proof {
                assert(args.deep_view() =~= dep_values@.map_values(|k: Key| ArgV::Value(k)));
            }
            State::Runnable(
                Runnable { func: self.selector.func, args, cacheable: self.selector.cacheable },
            )
        }
    }
}

/// A short diagnostic rendering of a node's kind; a task names its rule's
/// function through the host's renderer.
pub open spec fn format_model(n: NodeV, h: crate::bridge::HostModel) -> Seq<char> {
    match n {
        NodeV::Select(_) => "Select"@,
        NodeV::SelectLiteral(_) => "Literal"@,
        NodeV::SelectDependencies(_) => "Dependencies"@,
        NodeV::ProjectField(_) => "ProjectField"@,
        NodeV::SelectProjection(_) => "Projection"@,
        NodeV::Task(t) => "Task("@ + (h.render)(t.selector.func) + ")"@,
    }
}

impl Node {
    /// A short diagnostic rendering of the node's kind; purely diagnostic
    /// and never driving control flow.
    pub fn format<H: Host>(&self, host: &H) -> (r: String)
        ensures
            r@ == format_model(self@, host.model()),
    {
        match self {
            Node::Select(_) => String::from_str("Select"),
            Node::SelectLiteral(_) => String::from_str("Literal"),
            Node::SelectDependencies(_) => String::from_str("Dependencies"),
            Node::ProjectField(_) => String::from_str("ProjectField"),
            Node::SelectProjection(_) => String::from_str("Projection"),
            Node::Task(t) => {
                let mut s = String::from_str("Task(");
                let rendered = host.to_str(&t.selector.func);
                s.append(rendered.as_str());
                s.append(")");
                s
            },
        }
    }

    /// One step of this node against the completions of its already-known
    /// dependencies, the registry, and the host bridge.
    pub fn step<'a, H: Host>(&self, deps: &'a Completions, tasks: &'a Tasks, host: &'a H) -> (r: State)
        requires
            deps.wf(),
            step_defined(self@, (ContextV { deps: deps@, tasks: tasks@, host: host.model() })),
        ensures
            r@ == step_model(self@, (ContextV { deps: deps@, tasks: tasks@, host: host.model() })),
    {
        let context = StepContext { deps, tasks, host };
        match self {
            Node::Select(n) => n.step(&context),
            Node::SelectLiteral(n) => n.step(&context),
            Node::SelectDependencies(n) => n.step(&context),
            Node::ProjectField(n) => n.step(&context),
            Node::SelectProjection(n) => n.step(&context),
            Node::Task(n) => n.step(&context),
        }
    }
}


} // verus!
