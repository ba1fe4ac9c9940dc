//! The rule registry: a mapping from product constraint to candidate rules,
//! with intrinsic overrides keyed by the subject's concrete type, plus the
//! fixed fields and type constraints the resolution rules need.

use vstd::prelude::*;
use crate::keys::{Field, Function, Key, TypeConstraint, TypeId};
use crate::selectors::{Selector, Select, SelectDependencies, SelectLiteral, SelectProjection, selector_eq};

verus! {

/// A registered rule: "to produce `product`, consume the products described
/// by `clause` and hand them to `func`".  Rules are immutable once
/// registered.
#[derive(Clone, Debug, PartialEq, Eq, Hash)]
pub struct Task {
    pub cacheable: bool,
    pub product: TypeConstraint,
    pub clause: Vec<Selector>,
    pub func: Function,
}

/// The mathematical model of a rule.
#[verifier::ext_equal]
pub struct TaskV {
    pub cacheable: bool,
    pub product: TypeConstraint,
    pub clause: Seq<Selector>,
    pub func: Function,
}

impl View for Task {
    type V = TaskV;

    open spec fn view(&self) -> TaskV {
        TaskV {
            cacheable: self.cacheable,
            product: self.product,
            clause: self.clause@,
            func: self.func,
        }
    }
}

impl DeepView for Task {
    type V = TaskV;

    open spec fn deep_view(&self) -> TaskV {
        self.view()
    }
}

/// Copies a rule.
pub fn clone_task(t: &Task) -> (r: Task)
    ensures
        r@ == t@,
{
    let n = t.clause.len();
    let mut clause: Vec<Selector> = Vec::new();
    let mut i: usize = 0;
    while i < n
        invariant
            n == t.clause@.len(),
            i <= n,
            clause@ == t.clause@.subrange(0, i as int),
        decreases n - i,
    {
        clause.push(t.clause[i]);
        proof {
            assert(clause@ =~= t.clause@.subrange(0, i + 1));
        }
        i += 1;
    }
    proof {
        assert(t.clause@.subrange(0, n as int) =~= t.clause@);
    }
    Task { cacheable: t.cacheable, product: t.product, clause, func: t.func }
}

/// Structural equality of two rules.
pub fn task_eq(a: &Task, b: &Task) -> (r: bool)
    ensures
        r == (a@ == b@),
{
    if a.cacheable != b.cacheable || a.product != b.product || a.func != b.func {
        return false;
    }
    let n = a.clause.len();
    if n != b.clause.len() {
        return false;
    }
    let mut i: usize = 0;
    while i < n
        invariant
            n == a.clause@.len(),
            n == b.clause@.len(),
            i <= n,
            forall|j: int| 0 <= j < i ==> a.clause@[j] == b.clause@[j],
        decreases n - i,
    {
        if !selector_eq(&a.clause[i], &b.clause[i]) {
            return false;
        }
        i += 1;
    }
    proof {
        assert(a.clause@ =~= b.clause@);
    }
    true
}

/// The map denoted by a flat association list of rules: each key maps to the
/// sequence of rules registered under it, in registration order.
pub open spec fn rules_map<K>(s: Seq<(K, Task)>) -> Map<K, Seq<TaskV>>
    decreases s.len(),
{
    if s.len() == 0 {
        Map::empty()
    } else {
        let m = rules_map(s.drop_last());
        let k = s.last().0;
        let prior = if m.contains_key(k) {
            m[k]
        } else {
            Seq::empty()
        };
        m.insert(k, prior.push(s.last().1@))
    }
}

/// The rules registered under one key, in registration order.
pub open spec fn gathered_rules<K>(s: Seq<(K, Task)>, k: K) -> Seq<TaskV>
    decreases s.len(),
{
    if s.len() == 0 {
        Seq::empty()
    } else if s.last().0 == k {
        gathered_rules(s.drop_last(), k).push(s.last().1@)
    } else {
        gathered_rules(s.drop_last(), k)
    }
}

/// `rules_map` answers each key with exactly the rules gathered under it.
pub proof fn lemma_rules_map_gather<K>(s: Seq<(K, Task)>, k: K)
    ensures
        rules_map(s).contains_key(k) <==> gathered_rules(s, k).len() > 0,
        rules_map(s).contains_key(k) ==> rules_map(s)[k] == gathered_rules(s, k),
    decreases s.len(),
{
    if s.len() == 0 {
    } else {
        lemma_rules_map_gather(s.drop_last(), k);
    }
}

/// The mathematical model of the registry.
#[verifier::ext_equal]
pub struct TasksV {
    pub intrinsics: Map<(TypeId, TypeConstraint), Seq<TaskV>>,
    pub tasks: Map<TypeConstraint, Seq<TaskV>>,
    pub field_name: Field,
    pub field_products: Field,
    pub field_variants: Field,
    pub type_address: TypeConstraint,
    pub type_has_products: TypeConstraint,
    pub type_has_variants: TypeConstraint,
    pub preparing: Option<TaskV>,
}

/// The candidate rules for a subject type and product: the intrinsic entry if
/// present, otherwise the product entry, otherwise nothing.  Intrinsics are
/// never merged with tasks.
pub open spec fn gen_tasks_model(t: TasksV, subject_type: TypeId, product: TypeConstraint) -> Option<Seq<TaskV>> {
    if t.intrinsics.contains_key((subject_type, product)) {
        Some(t.intrinsics[(subject_type, product)])
    } else if t.tasks.contains_key(product) {
        Some(t.tasks[product])
    } else {
        None
    }
}

/// Registry of rules able to produce each type, along with a few fundamental
/// host types and fields that the engine must be aware of.
///
/// Rule registration follows a stateful lifecycle: `task_add` once per rule,
/// `add_*` zero or more times to add input clauses, `task_end` once to move
/// the completed rule into the registry.  `intrinsic_add` is a one-shot that
/// bypasses the builder.
pub struct Tasks {
    pub intrinsics: Vec<((TypeId, TypeConstraint), Task)>,
    pub tasks: Vec<(TypeConstraint, Task)>,
    pub field_name: Field,
    pub field_products: Field,
    pub field_variants: Field,
    pub type_address: TypeConstraint,
    pub type_has_products: TypeConstraint,
    pub type_has_variants: TypeConstraint,
    pub preparing: Option<Task>,
}

impl View for Tasks {
    type V = TasksV;

    open spec fn view(&self) -> TasksV {
        TasksV {
            intrinsics: rules_map(self.intrinsics@),
            tasks: rules_map(self.tasks@),
            field_name: self.field_name,
            field_products: self.field_products,
            field_variants: self.field_variants,
            type_address: self.type_address,
            type_has_products: self.type_has_products,
            type_has_variants: self.type_has_variants,
            preparing: match self.preparing {
                Some(t) => Some(t@),
                None => None,
            },
        }
    }
}

impl Tasks {
    /// An empty registry over the given fixed fields and type constraints.
    pub fn new(
        field_name: Field,
        field_products: Field,
        field_variants: Field,
        type_address: TypeConstraint,
        type_has_products: TypeConstraint,
        type_has_variants: TypeConstraint,
    ) -> (r: Tasks)
        ensures
            r@ == (TasksV {
                intrinsics: Map::empty(),
                tasks: Map::empty(),
                field_name,
                field_products,
                field_variants,
                type_address,
                type_has_products,
                type_has_variants,
                preparing: None,
            }),
    {
        let r = Tasks {
            intrinsics: Vec::new(),
            tasks: Vec::new(),
            field_name,
            field_products,
            field_variants,
            type_address,
            type_has_products,
            type_has_variants,
            preparing: None,
        };
        proof {
            assert(r@ =~= (TasksV {
                intrinsics: Map::empty(),
                tasks: Map::empty(),
                field_name,
                field_products,
                field_variants,
                type_address,
                type_has_products,
                type_has_variants,
                preparing: None,
            }));
        }
        r
    }

    /// The candidate rules for the given subject type and product, in
    /// registration order: the intrinsic entry if present, otherwise the
    /// product entry.
    pub fn gen_tasks(&self, subject_type: &TypeId, product: &TypeConstraint) -> (r: Option<Vec<Task>>)
        ensures
            (match r {
                Some(v) => gen_tasks_model(self@, *subject_type, *product) == Some(v.deep_view()),
                None => gen_tasks_model(self@, *subject_type, *product) is None,
            }),
    {
        proof {
            lemma_rules_map_gather(self.intrinsics@, (*subject_type, *product));
            lemma_rules_map_gather(self.tasks@, *product);
        }
        let from_intrinsics = self.gather_intrinsics(subject_type, product);
        if from_intrinsics.len() > 0 {
            return Some(from_intrinsics);
        }
        let from_tasks = self.gather_tasks(product);
        if from_tasks.len() > 0 {
            return Some(from_tasks);
        }
        None
    }

    /// The intrinsic rules registered under the given subject type and
    /// product, in registration order.
    fn gather_intrinsics(&self, subject_type: &TypeId, product: &TypeConstraint) -> (r: Vec<Task>)
        ensures
            r.deep_view() == gathered_rules(self.intrinsics@, (*subject_type, *product)),
    {
        let n = self.intrinsics.len();
        let mut r: Vec<Task> = Vec::new();
        let mut i: usize = 0;
        proof {
            assert(self.intrinsics@.subrange(0, 0).len() == 0);
            assert(r.deep_view() =~= gathered_rules(self.intrinsics@.subrange(0, 0), (*subject_type, *product)));
        }
        while i < n
            invariant
                n == self.intrinsics@.len(),
                i <= n,
                r.deep_view() == gathered_rules(self.intrinsics@.subrange(0, i as int), (*subject_type, *product)),
            decreases n - i,
        {
            let entry = &self.intrinsics[i];
            proof {
                assert(self.intrinsics@.subrange(0, i + 1).drop_last()
                    =~= self.intrinsics@.subrange(0, i as int));
                assert(self.intrinsics@.subrange(0, i + 1).last() == self.intrinsics@[i as int]);
            }
            if entry.0.0 == *subject_type && entry.0.1 == *product {
                r.push(clone_task(&entry.1));
                proof {
                    assert(r.deep_view() =~= gathered_rules(self.intrinsics@.subrange(0, i + 1), (*subject_type, *product)));
                }
            } else {
                proof {
                    assert(self.intrinsics@[i as int].0 != (*subject_type, *product));
                }
            }
            i += 1;
        }
        proof {
            assert(self.intrinsics@.subrange(0, n as int) =~= self.intrinsics@);
        }
        r
    }

    /// The generic rules registered under the given product, in registration
    /// order.
    fn gather_tasks(&self, product: &TypeConstraint) -> (r: Vec<Task>)
        ensures
            r.deep_view() == gathered_rules(self.tasks@, *product),
    {
        let n = self.tasks.len();
        let mut r: Vec<Task> = Vec::new();
        let mut i: usize = 0;
        proof {
            assert(r.deep_view() =~= gathered_rules(self.tasks@.subrange(0, 0), *product));
        }
        while i < n
            invariant
                n == self.tasks@.len(),
                i <= n,
                r.deep_view() == gathered_rules(self.tasks@.subrange(0, i as int), *product),
            decreases n - i,
        {
            let entry = &self.tasks[i];
            proof {
                assert(self.tasks@.subrange(0, i + 1).drop_last() =~= self.tasks@.subrange(0, i as int));
                assert(self.tasks@.subrange(0, i + 1).last() == self.tasks@[i as int]);
            }
            if entry.0 == *product {
                r.push(clone_task(&entry.1));
                proof {
                    assert(r.deep_view() =~= gathered_rules(self.tasks@.subrange(0, i + 1), *product));
                }
            }
            i += 1;
        }
        proof {
            assert(self.tasks@.subrange(0, n as int) =~= self.tasks@);
        }
        r
    }

    /// Registers an intrinsic rule for the given concrete subject type and
    /// product.  The rule's clause selects the subject itself, so that the
    /// subject is passed to the host function; intrinsics are not cacheable.
    pub fn intrinsic_add(&mut self, func: Function, subject_type: TypeId, product: TypeConstraint)
        ensures
            (final(self)@ == (TasksV {
                intrinsics: old(self)@.intrinsics.insert(
                    (subject_type, product),
                    (if old(self)@.intrinsics.contains_key((subject_type, product)) {
                        old(self)@.intrinsics[(subject_type, product)]
                    } else {
                        Seq::empty()
                    }).push(TaskV {
                        cacheable: false,
                        product,
                        clause: seq![Selector::Select(Select { product: subject_type, variant_key: None })],
                        func,
                    }),
                ),
                ..old(self)@
            })),
    {
        let mut clause: Vec<Selector> = Vec::new();
        clause.push(Selector::select(subject_type));
        let task = Task { cacheable: false, product, clause, func };
        self.intrinsics.push(((subject_type, product), task));
        proof {
            assert(self.intrinsics@.drop_last() =~= old(self).intrinsics@);
            assert(task@.clause =~= seq![Selector::Select(Select { product: subject_type, variant_key: None })]);
            assert(final(self)@ =~= (TasksV {
                intrinsics: old(self)@.intrinsics.insert(
                    (subject_type, product),
                    (if old(self)@.intrinsics.contains_key((subject_type, product)) {
                        old(self)@.intrinsics[(subject_type, product)]
                    } else {
                        Seq::empty()
                    }).push(TaskV {
                        cacheable: false,
                        product,
                        clause: seq![Selector::Select(Select { product: subject_type, variant_key: None })],
                        func,
                    }),
                ),
                ..old(self)@
            }));
        }
    }

    /// Begins registering a rule: installs the single-rule builder slot.
    /// Rules registered through the builder are cacheable.
    pub fn task_add(&mut self, func: Function, product: TypeConstraint)
        requires
            old(self)@.preparing is None,
        ensures
            (final(self)@ == (TasksV {
                preparing: Some(TaskV { cacheable: true, product, clause: Seq::empty(), func }),
                ..old(self)@
            })),
    {
        self.preparing = Some(Task { cacheable: true, product, clause: Vec::new(), func });
        proof {
            assert(final(self)@ =~= (TasksV {
                preparing: Some(TaskV { cacheable: true, product, clause: Seq::empty(), func }),
                ..old(self)@
            }));
        }
    }

    /// Appends one selector to the clause of the rule under construction.
    fn clause(&mut self, selector: Selector)
        requires
            old(self)@.preparing is Some,
        ensures
            (final(self)@ == (TasksV {
                preparing: Some(TaskV {
                    clause: old(self)@.preparing.unwrap().clause.push(selector),
                    ..old(self)@.preparing.unwrap()
                }),
                ..old(self)@
            })),
    {
        let prep = self.preparing.take();
        match prep {
            Some(mut t) => {
                t.clause.push(selector);
                self.preparing = Some(t);
            },
            None => {
                proof {
                    assert(false);
                }
            },
        }
        proof {
            assert(final(self)@ =~= (TasksV {
                preparing: Some(TaskV {
                    clause: old(self)@.preparing.unwrap().clause.push(selector),
                    ..old(self)@.preparing.unwrap()
                }),
                ..old(self)@
            }));
        }
    }

    /// Adds a `Select` clause to the rule under construction.
    pub fn add_select(&mut self, product: TypeConstraint, variant_key: Option<Key>)
        requires
            old(self)@.preparing is Some,
        ensures
            (final(self)@ == (TasksV {
                preparing: Some(TaskV {
                    clause: old(self)@.preparing.unwrap().clause.push(
                        Selector::Select(Select { product, variant_key })),
                    ..old(self)@.preparing.unwrap()
                }),
                ..old(self)@
            })),
    {
        self.clause(Selector::Select(Select { product, variant_key }));
    }

    /// Adds a `SelectDependencies` clause to the rule under construction.
    pub fn add_select_dependencies(&mut self, product: TypeConstraint, dep_product: TypeConstraint, field: Field, transitive: bool)
        requires
            old(self)@.preparing is Some,
        ensures
            (final(self)@ == (TasksV {
                preparing: Some(TaskV {
                    clause: old(self)@.preparing.unwrap().clause.push(
                        Selector::SelectDependencies(SelectDependencies { product, dep_product, field, transitive })),
                    ..old(self)@.preparing.unwrap()
                }),
                ..old(self)@
            })),
    {
        self.clause(Selector::SelectDependencies(SelectDependencies { product, dep_product, field, transitive }));
    }

    /// Adds a `SelectProjection` clause to the rule under construction.
    pub fn add_select_projection(&mut self, product: TypeConstraint, projected_subject: TypeId, field: Field, input_product: TypeConstraint)
        requires
            old(self)@.preparing is Some,
        ensures
            (final(self)@ == (TasksV {
                preparing: Some(TaskV {
                    clause: old(self)@.preparing.unwrap().clause.push(
                        Selector::SelectProjection(SelectProjection { product, projected_subject, field, input_product })),
                    ..old(self)@.preparing.unwrap()
                }),
                ..old(self)@
            })),
    {
        self.clause(Selector::SelectProjection(SelectProjection { product, projected_subject, field, input_product }));
    }

    /// Adds a `SelectLiteral` clause to the rule under construction.
    pub fn add_select_literal(&mut self, subject: Key, product: TypeConstraint)
        requires
            old(self)@.preparing is Some,
        ensures
            (final(self)@ == (TasksV {
                preparing: Some(TaskV {
                    clause: old(self)@.preparing.unwrap().clause.push(
                        Selector::SelectLiteral(SelectLiteral { subject, product })),
                    ..old(self)@.preparing.unwrap()
                }),
                ..old(self)@
            })),
    {
        self.clause(Selector::SelectLiteral(SelectLiteral { subject, product }));
    }

    /// Moves the completed rule from the builder slot into the registry
    /// under its product.  Registering an equal rule twice is a programmer
    /// error, which the precondition rules out.
    pub fn task_end(&mut self)
        requires
            old(self)@.preparing is Some,
            old(self)@.tasks.contains_key(old(self)@.preparing.unwrap().product)
                ==> !old(self)@.tasks[old(self)@.preparing.unwrap().product].contains(old(self)@.preparing.unwrap()),
        ensures
            (final(self)@ == (TasksV {
                tasks: old(self)@.tasks.insert(
                    old(self)@.preparing.unwrap().product,
                    (if old(self)@.tasks.contains_key(old(self)@.preparing.unwrap().product) {
                        old(self)@.tasks[old(self)@.preparing.unwrap().product]
                    } else {
                        Seq::empty()
                    }).push(old(self)@.preparing.unwrap()),
                ),
                preparing: None,
                ..old(self)@
            })),
    {
        let prep = self.preparing.take();
        match prep {
            Some(task) => {
                let product = task.product;
                self.tasks.push((product, task));
                proof {
                    assert(self.tasks@.drop_last() =~= old(self).tasks@);
                    assert(final(self)@ =~= (TasksV {
                        tasks: old(self)@.tasks.insert(
                            old(self)@.preparing.unwrap().product,
                            (if old(self)@.tasks.contains_key(old(self)@.preparing.unwrap().product) {
                                old(self)@.tasks[old(self)@.preparing.unwrap().product]
                            } else {
                                Seq::empty()
                            }).push(old(self)@.preparing.unwrap()),
                        ),
                        preparing: None,
                        ..old(self)@
                    }));
                }
            },
            None => {
                proof {
                    assert(false);
                }
            },
        }
    }
}

} // verus!
