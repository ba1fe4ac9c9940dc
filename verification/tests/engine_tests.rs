use engine::bridge::{Host, SubclassCache};
use engine::keys::{variant_value, Digest, Key};
use engine::nodes::{Arg, Complete, Completions, Node, Runnable, State};
use engine::selectors::{Select, SelectDependencies, SelectLiteral, SelectProjection, Selector};
use engine::step::clone_node;
use engine::tasks::Tasks;

fn d(n: u64) -> Digest {
    Digest::new(n, 0, 0, 0)
}

fn key(value: u64, type_of: u64) -> Key {
    Key::new(d(value), d(type_of))
}

const FIELD_NAME: u64 = 9001;
const FIELD_PRODUCTS: u64 = 9002;
const FIELD_VARIANTS: u64 = 9003;
const TYPE_ADDRESS: u64 = 9004;
const TYPE_HAS_PRODUCTS: u64 = 9005;
const TYPE_HAS_VARIANTS: u64 = 9006;
const PROJECT_FUNC: u64 = 9100;

fn new_tasks() -> Tasks {
    Tasks::new(
        key(FIELD_NAME, 1),
        key(FIELD_PRODUCTS, 1),
        key(FIELD_VARIANTS, 1),
        d(TYPE_ADDRESS),
        d(TYPE_HAS_PRODUCTS),
        d(TYPE_HAS_VARIANTS),
    )
}

struct TestHost {
    subclass_true: Vec<(Digest, Digest)>,
    projections: Vec<((Key, Key), Key)>,
    multi: Vec<((Key, Key), Vec<Key>)>,
}

impl TestHost {
    fn new() -> TestHost {
        TestHost { subclass_true: Vec::new(), projections: Vec::new(), multi: Vec::new() }
    }
}

impl Host for TestHost {
    // The bridge's ghost model is erased at runtime and never called.
    fn model(&self) -> engine::bridge::HostModel {
        unreachable!()
    }

    fn issubclass(&self, cls: &Digest, super_cls: &Digest) -> bool {
        self.subclass_true.iter().any(|p| p.0 == *cls && p.1 == *super_cls)
    }

    fn project(&self, item: &Key, field: &Key) -> Key {
        self.projections
            .iter()
            .find(|e| e.0 .0 == *item && e.0 .1 == *field)
            .map(|e| e.1)
            .unwrap_or(Key::empty())
    }

    fn project_multi(&self, item: &Key, field: &Key) -> Vec<Key> {
        self.multi
            .iter()
            .find(|e| e.0 .0 == *item && e.0 .1 == *field)
            .map(|e| e.1.clone())
            .unwrap_or_default()
    }

    fn store_list(&self, items: Vec<Key>) -> Key {
        let mut w: u64 = 1;
        for it in &items {
            w = w.wrapping_mul(31).wrapping_add(it.digest.w0);
        }
        Key::new(Digest::new(w, 0, 0, 2), d(8000))
    }

    fn to_str(&self, digest: &Digest) -> String {
        format!("{:x}", digest.w0)
    }

    fn project_function(&self) -> Digest {
        d(PROJECT_FUNC)
    }
}

/// The deterministic function the test host runs for a dispatched runnable:
/// the projection handle performs a projection, any other handle hashes its
/// arguments into a value whose type is derived from the handle.
fn apply(host: &TestHost, r: &Runnable) -> Key {
    if *r.func() == host.project_function() {
        let args = r.args();
        match (&args[0], &args[1]) {
            (Arg::Value(a), Arg::Value(b)) => host.project(a, b),
            _ => panic!("projection runnable with node arguments"),
        }
    } else {
        let mut w: u64 = r.func().w0;
        for a in r.args() {
            match a {
                Arg::Value(k2) => {
                    w = w.wrapping_mul(1009).wrapping_add(k2.digest.w0);
                }
                Arg::Node(_) => panic!("test rules use literal arguments"),
            }
        }
        Key::new(Digest::new(w, 0, 0, 0), d(r.func().w0 + 500))
    }
}

/// A miniature scheduler: steps the node, recursively completes its missing
/// dependencies, dispatches runnables to `apply`, and records completions by
/// node identity.
fn evaluate(node: &Node, completions: &mut Completions, tasks: &Tasks, host: &TestHost) -> Complete {
    if let Some(c) = completions.get(node) {
        return c.clone();
    }
    loop {
        match node.step(completions, tasks, host) {
            State::Waiting(deps) => {
                for dep in &deps {
                    evaluate(dep, completions, tasks, host);
                }
            }
            State::Complete(c) => {
                completions.insert(clone_node(node), c.clone());
                return c;
            }
            State::Runnable(r) => {
                let c = Complete::Return(apply(host, &r));
                completions.insert(clone_node(node), c.clone());
                return c;
            }
        }
    }
}

fn select_node(product: u64, subject: Key) -> Node {
    Node::create(Selector::select(d(product)), subject, Vec::new())
}

#[test]
fn key_getters_and_empty() {
    let k = key(3, 4);
    assert_eq!(*k.digest(), d(3));
    assert_eq!(*k.type_id(), d(4));
    let e = Key::empty();
    assert_eq!(*e.digest(), Digest::new(0, 0, 0, 0));
    assert_eq!(*e.type_id(), Digest::new(0, 0, 0, 0));
}

#[test]
fn digest_hex_prefix_renders_first_four_bytes() {
    assert_eq!(Digest::new(0x04030201, 0, 0, 0).hex_prefix(), "01020304");
    assert_eq!(Digest::new(0, 5, 6, 7).hex_prefix(), "00000000");
    assert_eq!(Digest::new(0xff, 0, 0, 0).hex_prefix(), "ff000000");
}

#[test]
fn keys_are_ordered_by_digest() {
    let a = key(1, 9);
    let b = key(2, 1);
    assert!(a < b);
    assert!(Digest::new(1, 0, 0, 0) < Digest::new(2, 0, 0, 0));
}

#[test]
fn variant_lookup_first_entry_wins() {
    let k1 = key(1, 1);
    let v1 = key(10, 1);
    let v2 = key(20, 1);
    let variants = vec![(k1, v1), (k1, v2)];
    assert_eq!(variant_value(&variants, k1), Some(v1));
    assert_eq!(variant_value(&variants, key(2, 1)), None);
}

#[test]
fn literal_is_a_match() {
    // S1: a rule-free select completes with the subject itself when the
    // subject satisfies the product constraint.
    let tasks = new_tasks();
    let mut host = TestHost::new();
    let subject = key(1, 100);
    host.subclass_true.push((d(100), d(200)));
    let node = select_node(200, subject);
    let completions = Completions::new();
    let state = node.step(&completions, &tasks, &host);
    assert_eq!(state, State::Complete(Complete::Return(subject)));
}

#[test]
fn no_task_available_noop() {
    let tasks = new_tasks();
    let host = TestHost::new();
    let node = select_node(200, key(1, 100));
    let completions = Completions::new();
    let state = node.step(&completions, &tasks, &host);
    assert_eq!(
        state,
        State::Complete(Complete::Noop("No task was available to compute the value.", None))
    );
}

#[test]
fn variant_key_not_configured() {
    // S2: the subject is addressable, its variants select resolves to a
    // noop, and the requested variant key is not in scope.
    let tasks = new_tasks();
    let mut host = TestHost::new();
    host.subclass_true.push((d(100), d(TYPE_ADDRESS)));
    let subject = key(1, 100);
    let selector = Selector::Select(Select { product: d(200), variant_key: Some(key(55, 1)) });
    let node = Node::create(selector, subject, Vec::new());
    let mut completions = Completions::new();

    let first = node.step(&completions, &tasks, &host);
    let variants_node = match first {
        State::Waiting(deps) => {
            assert_eq!(deps.len(), 1);
            deps[0].clone()
        }
        other => panic!("expected a wait on the variants node, got {:?}", other),
    };
    // The variants node resolves to a noop: no rule produces variants.
    let c = evaluate(&variants_node, &mut completions, &tasks, &host);
    assert!(matches!(c, Complete::Noop(_, _)));

    let second = node.step(&completions, &tasks, &host);
    assert_eq!(
        second,
        State::Complete(Complete::Noop(
            "A matching variant key was not configured in variants.",
            None
        ))
    );
}

#[test]
fn has_a_match_first_passing_child() {
    // S3: the subject has products; the second child passes the literal
    // test and is returned, the first being tried and rejected.
    let tasks = new_tasks();
    let mut host = TestHost::new();
    let subject = key(1, 100);
    let c1 = key(11, 101);
    let c2 = key(12, 102);
    host.subclass_true.push((d(100), d(TYPE_HAS_PRODUCTS)));
    host.multi.push(((subject, key(FIELD_PRODUCTS, 1)), vec![c1, c2]));
    host.subclass_true.push((d(102), d(200)));
    let node = select_node(200, subject);
    let completions = Completions::new();
    let state = node.step(&completions, &tasks, &host);
    assert_eq!(state, State::Complete(Complete::Return(c2)));
}

#[test]
fn task_dependency_chain() {
    // S4: a select first waits on the rule's task node; the task waits on
    // its clause, then emits a cacheable runnable; the recorded host result
    // becomes the select's value.
    let mut tasks = new_tasks();
    let func = d(300);
    tasks.task_add(func, d(200));
    tasks.add_select(d(201), None);
    tasks.task_end();

    let mut host = TestHost::new();
    let subject = key(1, 100);
    // The subject satisfies the clause product directly.
    host.subclass_true.push((d(100), d(201)));
    // The rule's result type satisfies the requested product.
    host.subclass_true.push((d(300 + 500), d(200)));

    let node = select_node(200, subject);
    let mut completions = Completions::new();

    let first = node.step(&completions, &tasks, &host);
    let task_node = match first {
        State::Waiting(deps) => {
            assert_eq!(deps.len(), 1);
            deps[0].clone()
        }
        other => panic!("expected a wait on the task node, got {:?}", other),
    };

    // Stepping the task first waits on its clause select.
    let task_first = task_node.step(&completions, &tasks, &host);
    let clause_node = match task_first {
        State::Waiting(deps) => {
            assert_eq!(deps.len(), 1);
            deps[0].clone()
        }
        other => panic!("expected a wait on the clause select, got {:?}", other),
    };
    let clause_value = evaluate(&clause_node, &mut completions, &tasks, &host);
    assert_eq!(clause_value, Complete::Return(subject));

    // With the clause complete, the task is runnable with the clause value.
    let task_second = task_node.step(&completions, &tasks, &host);
    let runnable = match task_second {
        State::Runnable(r) => r,
        other => panic!("expected a runnable, got {:?}", other),
    };
    assert_eq!(*runnable.func(), func);
    assert_eq!(runnable.args(), &vec![Arg::Value(subject)]);
    assert!(runnable.cacheable());

    let produced = apply(&host, &runnable);
    completions.insert(clone_node(&task_node), Complete::Return(produced));

    let second = node.step(&completions, &tasks, &host);
    assert_eq!(second, State::Complete(Complete::Return(produced)));
}

#[test]
fn conflicting_task_values_throw() {
    // S5: two rules produce distinct passing values for the same select.
    let mut tasks = new_tasks();
    tasks.task_add(d(301), d(200));
    tasks.add_select_literal(key(71, 110), d(210));
    tasks.task_end();
    tasks.task_add(d(302), d(200));
    tasks.add_select_literal(key(72, 110), d(210));
    tasks.task_end();

    let mut host = TestHost::new();
    host.subclass_true.push((d(301 + 500), d(200)));
    host.subclass_true.push((d(302 + 500), d(200)));

    let node = select_node(200, key(1, 100));
    let mut completions = Completions::new();
    let result = evaluate(&node, &mut completions, &tasks, &host);
    assert_eq!(
        result,
        Complete::Throw(String::from("Conflicting values produced for subject and type."))
    );
}

#[test]
fn projection_chain_returns_projected_product() {
    // S6: the inner ProjectField resolves the input product and runs the
    // host projection; the outer select on the projected subject returns.
    let mut host = TestHost::new();
    let tasks = new_tasks();
    let subject = key(1, 100);
    let field = key(40, 1);
    let projected = key(90, 150);
    host.subclass_true.push((d(100), d(201)));
    host.projections.push(((subject, field), projected));
    host.subclass_true.push((d(150), d(202)));

    let selector = Selector::SelectProjection(SelectProjection {
        product: d(202),
        projected_subject: d(150),
        field,
        input_product: d(201),
    });
    let node = Node::create(selector, subject, Vec::new());
    let mut completions = Completions::new();
    let result = evaluate(&node, &mut completions, &tasks, &host);
    assert_eq!(result, Complete::Return(projected));
}

#[test]
fn projection_without_source_throws() {
    // The outer select of a projection resolving to a noop is an error.
    let mut host = TestHost::new();
    let tasks = new_tasks();
    let subject = key(1, 100);
    let field = key(40, 1);
    let projected = key(90, 150);
    host.subclass_true.push((d(100), d(201)));
    host.projections.push(((subject, field), projected));
    // Nothing lets the projected subject satisfy the outer product.

    let selector = Selector::SelectProjection(SelectProjection {
        product: d(202),
        projected_subject: d(150),
        field,
        input_product: d(201),
    });
    let node = Node::create(selector, subject, Vec::new());
    let mut completions = Completions::new();
    let result = evaluate(&node, &mut completions, &tasks, &host);
    assert_eq!(result, Complete::Throw(String::from("No source of projected dependency.")));
}

#[test]
fn project_field_emits_projection_runnable() {
    let mut host = TestHost::new();
    let tasks = new_tasks();
    let subject = key(1, 100);
    let field = key(40, 1);
    host.subclass_true.push((d(100), d(201)));

    let selector = SelectProjection {
        product: d(202),
        projected_subject: d(150),
        field,
        input_product: d(201),
    };
    let node = Node::ProjectField(engine::nodes::ProjectField {
        subject,
        variants: Vec::new(),
        selector,
    });
    let mut completions = Completions::new();

    let first = node.step(&completions, &tasks, &host);
    let input_node = match first {
        State::Waiting(deps) => deps[0].clone(),
        other => panic!("expected a wait on the input select, got {:?}", other),
    };
    let input = evaluate(&input_node, &mut completions, &tasks, &host);
    assert_eq!(input, Complete::Return(subject));

    let second = node.step(&completions, &tasks, &host);
    match second {
        State::Runnable(r) => {
            assert_eq!(*r.func(), d(PROJECT_FUNC));
            assert_eq!(r.args(), &vec![Arg::Value(subject), Arg::Value(field)]);
            assert!(r.cacheable());
        }
        other => panic!("expected a projection runnable, got {:?}", other),
    }
}

#[test]
fn select_dependencies_preserves_order() {
    // Order preservation: the collected values follow the declaration
    // order of the projected field, and the result is the interned list.
    let mut host = TestHost::new();
    let tasks = new_tasks();
    let subject = key(1, 100);
    let field = key(41, 1);
    let deps_value = key(60, 160);
    let k1 = key(61, 161);
    let k2 = key(62, 162);
    let k3 = key(63, 163);
    host.subclass_true.push((d(100), d(205)));
    host.multi.push(((subject, field), vec![k1, k2, k3]));
    host.subclass_true.push((d(161), d(206)));
    host.subclass_true.push((d(162), d(206)));
    host.subclass_true.push((d(163), d(206)));
    let _ = deps_value;

    let selector = Selector::SelectDependencies(SelectDependencies {
        product: d(206),
        dep_product: d(205),
        field,
        transitive: false,
    });
    let node = Node::create(selector, subject, Vec::new());
    let mut completions = Completions::new();
    let result = evaluate(&node, &mut completions, &tasks, &host);
    assert_eq!(result, Complete::Return(host.store_list(vec![k1, k2, k3])));
}

#[test]
fn select_dependencies_missing_source_throws() {
    let mut host = TestHost::new();
    let tasks = new_tasks();
    let subject = key(1, 100);
    let field = key(41, 1);
    let k1 = key(61, 161);
    host.subclass_true.push((d(100), d(205)));
    host.multi.push(((subject, field), vec![k1]));
    // k1 cannot satisfy the product: its select resolves to a noop.

    let selector = Selector::SelectDependencies(SelectDependencies {
        product: d(206),
        dep_product: d(205),
        field,
        transitive: false,
    });
    let node = Node::create(selector, subject, Vec::new());
    let mut completions = Completions::new();
    let result = evaluate(&node, &mut completions, &tasks, &host);
    assert_eq!(result, Complete::Throw(String::from("No source of explicit dep.")));
}

#[test]
fn select_dependencies_dep_product_noop() {
    let host = TestHost::new();
    let tasks = new_tasks();
    let subject = key(1, 100);
    let selector = Selector::SelectDependencies(SelectDependencies {
        product: d(206),
        dep_product: d(205),
        field: key(41, 1),
        transitive: false,
    });
    let node = Node::create(selector, subject, Vec::new());
    let mut completions = Completions::new();
    let result = evaluate(&node, &mut completions, &tasks, &host);
    match result {
        Complete::Noop(reason, cause) => {
            assert_eq!(reason, "Could not compute the dep product to determine deps.");
            assert!(cause.is_some());
        }
        other => panic!("expected a noop, got {:?}", other),
    }
}

#[test]
fn empty_clause_rule_is_immediately_runnable() {
    let mut tasks = new_tasks();
    tasks.task_add(d(330), d(200));
    tasks.task_end();
    let host = TestHost::new();
    let rules = tasks.gen_tasks(&d(100), &d(200)).expect("rule registered");
    let task_node = Node::Task(engine::nodes::Task {
        subject: key(1, 100),
        product: d(200),
        variants: Vec::new(),
        selector: rules[0].clone(),
    });
    let completions = Completions::new();
    let state = task_node.step(&completions, &tasks, &host);
    match state {
        State::Runnable(r) => {
            assert_eq!(*r.func(), d(330));
            assert!(r.args().is_empty());
            assert!(r.cacheable());
        }
        other => panic!("expected an immediate runnable, got {:?}", other),
    }
}

#[test]
fn select_dependencies_empty_field_interns_empty_list() {
    let mut host = TestHost::new();
    let tasks = new_tasks();
    let subject = key(1, 100);
    let field = key(41, 1);
    host.subclass_true.push((d(100), d(205)));
    host.multi.push(((subject, field), Vec::new()));
    let selector = Selector::SelectDependencies(SelectDependencies {
        product: d(206),
        dep_product: d(205),
        field,
        transitive: false,
    });
    let node = Node::create(selector, subject, Vec::new());
    let mut completions = Completions::new();
    let result = evaluate(&node, &mut completions, &tasks, &host);
    assert_eq!(result, Complete::Return(host.store_list(Vec::new())));
}

#[test]
fn task_missing_input_noop() {
    let mut tasks = new_tasks();
    tasks.task_add(d(310), d(200));
    tasks.add_select(d(209), None);
    tasks.task_end();
    let host = TestHost::new();
    let subject = key(1, 100);
    let rules = tasks.gen_tasks(&d(100), &d(200)).expect("rule registered");
    let task_node = Node::Task(engine::nodes::Task {
        subject,
        product: d(200),
        variants: Vec::new(),
        selector: rules[0].clone(),
    });
    let mut completions = Completions::new();
    let result = evaluate(&task_node, &mut completions, &tasks, &host);
    match result {
        Complete::Noop(reason, cause) => {
            assert_eq!(reason, "Was missing at least one input.");
            assert!(cause.is_some());
        }
        other => panic!("expected a noop, got {:?}", other),
    }
}

#[test]
fn select_literal_ignores_dynamic_subject() {
    let host = TestHost::new();
    let tasks = new_tasks();
    let literal = key(77, 170);
    let selector = Selector::SelectLiteral(SelectLiteral { subject: literal, product: d(207) });
    let node = Node::create(selector, key(1, 100), Vec::new());
    let completions = Completions::new();
    let state = node.step(&completions, &tasks, &host);
    assert_eq!(state, State::Complete(Complete::Return(literal)));
    assert_eq!(*node.subject(), literal);
}

#[test]
fn throw_propagates_verbatim_through_task() {
    let mut tasks = new_tasks();
    tasks.task_add(d(311), d(200));
    tasks.add_select(d(209), None);
    tasks.task_end();
    let host = TestHost::new();
    let subject = key(1, 100);
    let rules = tasks.gen_tasks(&d(100), &d(200)).expect("rule registered");
    let task_node = Node::Task(engine::nodes::Task {
        subject,
        product: d(200),
        variants: Vec::new(),
        selector: rules[0].clone(),
    });
    let clause_node = Node::create(Selector::select(d(209)), subject, Vec::new());
    let mut completions = Completions::new();
    completions.insert(clause_node, Complete::Throw(String::from("boom")));
    let state = task_node.step(&completions, &tasks, &host);
    assert_eq!(state, State::Complete(Complete::Throw(String::from("boom"))));
}

#[test]
fn throw_propagates_verbatim_through_select() {
    let mut tasks = new_tasks();
    tasks.task_add(d(312), d(200));
    tasks.add_select(d(209), None);
    tasks.task_end();
    let host = TestHost::new();
    let subject = key(1, 100);
    let node = select_node(200, subject);
    let mut completions = Completions::new();
    let task_nodes = match node.step(&completions, &tasks, &host) {
        State::Waiting(deps) => deps,
        other => panic!("expected a wait on the task node, got {:?}", other),
    };
    completions.insert(task_nodes[0].clone(), Complete::Throw(String::from("kaboom")));
    let state = node.step(&completions, &tasks, &host);
    assert_eq!(state, State::Complete(Complete::Throw(String::from("kaboom"))));
}

#[test]
fn throw_propagates_verbatim_through_select_dependencies() {
    let host = TestHost::new();
    let tasks = new_tasks();
    let subject = key(1, 100);
    let selector = Selector::SelectDependencies(SelectDependencies {
        product: d(206),
        dep_product: d(205),
        field: key(41, 1),
        transitive: false,
    });
    let node = Node::create(selector, subject, Vec::new());
    let dep_product_node = Node::create(Selector::select(d(205)), subject, Vec::new());
    let mut completions = Completions::new();
    completions.insert(dep_product_node, Complete::Throw(String::from("deep failure")));
    let state = node.step(&completions, &tasks, &host);
    assert_eq!(state, State::Complete(Complete::Throw(String::from("deep failure"))));
}

#[test]
fn stepping_is_deterministic() {
    // Equal node, equal completions, equal host: equal states, stepped twice.
    let mut tasks = new_tasks();
    tasks.task_add(d(313), d(200));
    tasks.add_select(d(209), None);
    tasks.task_end();
    let host = TestHost::new();
    let node = select_node(200, key(1, 100));
    let completions = Completions::new();
    let s1 = node.step(&completions, &tasks, &host);
    let s2 = node.step(&completions, &tasks, &host);
    assert_eq!(s1, s2);
}

#[test]
fn equal_triples_denote_equal_nodes() {
    // Node identity: equal (selector, subject, variants) triples build
    // equal nodes, and a completion store answers them alike.
    let selector = Selector::select(d(200));
    let subject = key(1, 100);
    let variants = vec![(key(5, 1), key(6, 1))];
    let n1 = Node::create(selector, subject, variants.clone());
    let n2 = Node::create(selector, subject, variants);
    assert_eq!(n1, n2);
    assert!(engine::nodes::node_eq(&n1, &n2));
    let mut completions = Completions::new();
    completions.insert(n1, Complete::Return(key(9, 9)));
    assert_eq!(completions.get(&n2), Some(&Complete::Return(key(9, 9))));
    assert_eq!(completions.len(), 1);
}

#[test]
fn monotonic_dependencies_progress() {
    // After the waited dependency completes, re-stepping progresses and
    // never waits again on an answered node.
    let mut tasks = new_tasks();
    tasks.task_add(d(314), d(200));
    tasks.add_select_literal(key(71, 110), d(210));
    tasks.task_end();
    let mut host = TestHost::new();
    host.subclass_true.push((d(314 + 500), d(200)));
    let node = select_node(200, key(1, 100));
    let mut completions = Completions::new();
    let first = node.step(&completions, &tasks, &host);
    let deps = match first {
        State::Waiting(deps) => deps,
        other => panic!("expected a wait, got {:?}", other),
    };
    for dep in &deps {
        evaluate(dep, &mut completions, &tasks, &host);
    }
    let second = node.step(&completions, &tasks, &host);
    match second {
        State::Waiting(new_deps) => {
            for nd in &new_deps {
                assert!(completions.get(nd).is_none());
                assert!(!deps.contains(nd));
            }
        }
        State::Complete(_) | State::Runnable(_) => {}
    }
}

#[test]
fn intrinsic_overrides_generic_rules() {
    let mut tasks = new_tasks();
    tasks.task_add(d(320), d(200));
    tasks.add_select(d(209), None);
    tasks.task_end();
    tasks.intrinsic_add(d(321), d(100), d(200));

    // For the matching subject type the intrinsic alone is used.
    let intrinsic = tasks.gen_tasks(&d(100), &d(200)).expect("intrinsic entry");
    assert_eq!(intrinsic.len(), 1);
    assert_eq!(intrinsic[0].func, d(321));
    assert!(!intrinsic[0].cacheable);
    assert_eq!(
        intrinsic[0].clause,
        vec![Selector::Select(Select { product: d(100), variant_key: None })]
    );

    // For any other subject type the generic rule applies.
    let generic = tasks.gen_tasks(&d(101), &d(200)).expect("generic entry");
    assert_eq!(generic.len(), 1);
    assert_eq!(generic[0].func, d(320));
    assert!(generic[0].cacheable);

    // An unknown product has no entry at all.
    assert!(tasks.gen_tasks(&d(100), &d(222)).is_none());
}

#[test]
fn builder_collects_clause_in_order() {
    let mut tasks = new_tasks();
    tasks.task_add(d(322), d(200));
    tasks.add_select(d(211), Some(key(5, 1)));
    tasks.add_select_dependencies(d(212), d(213), key(42, 1), true);
    tasks.add_select_projection(d(214), d(151), key(43, 1), d(215));
    tasks.add_select_literal(key(73, 110), d(216));
    tasks.task_end();

    let rules = tasks.gen_tasks(&d(1), &d(200)).expect("rule registered");
    assert_eq!(rules.len(), 1);
    let clause = &rules[0].clause;
    assert_eq!(clause.len(), 4);
    assert_eq!(clause[0], Selector::Select(Select { product: d(211), variant_key: Some(key(5, 1)) }));
    assert_eq!(
        clause[1],
        Selector::SelectDependencies(SelectDependencies {
            product: d(212),
            dep_product: d(213),
            field: key(42, 1),
            transitive: true,
        })
    );
    assert_eq!(
        clause[2],
        Selector::SelectProjection(SelectProjection {
            product: d(214),
            projected_subject: d(151),
            field: key(43, 1),
            input_product: d(215),
        })
    );
    assert_eq!(clause[3], Selector::SelectLiteral(SelectLiteral { subject: key(73, 110), product: d(216) }));
}

#[test]
fn subclass_cache_answers_like_the_host() {
    // Subclass-cache correctness: with a deterministic host, the cached
    // bridge answers identically with and without caching.
    let mut host = TestHost::new();
    host.subclass_true.push((d(1), d(2)));
    let mut cache = SubclassCache::new();
    let queries = [(d(1), d(2)), (d(1), d(3)), (d(1), d(2)), (d(4), d(2)), (d(1), d(3))];
    for (cls, sup) in &queries {
        let cached = cache.issubclass_cached(&host, cls, sup);
        let direct = host.issubclass(cls, sup);
        assert_eq!(cached, direct);
    }
    assert_eq!(cache.lookup(&d(1), &d(2)), Some(true));
    assert_eq!(cache.lookup(&d(1), &d(3)), Some(false));
    assert_eq!(cache.lookup(&d(9), &d(9)), None);
}

#[test]
fn store_list_is_idempotent_on_equal_inputs() {
    let host = TestHost::new();
    let a = host.store_list(vec![key(1, 1), key(2, 1)]);
    let b = host.store_list(vec![key(1, 1), key(2, 1)]);
    assert_eq!(a, b);
    let c = host.store_list(vec![key(2, 1), key(1, 1)]);
    assert_ne!(a, c);
}

#[test]
fn node_accessors_and_format() {
    let host = TestHost::new();
    let subject = key(1, 100);
    let node = select_node(200, subject);
    assert_eq!(*node.subject(), subject);
    assert_eq!(*node.product(), d(200));
    assert_eq!(node.format(&host), "Select");

    let mut tasks = new_tasks();
    tasks.task_add(d(0x2a), d(200));
    tasks.task_end();
    let rules = tasks.gen_tasks(&d(100), &d(200)).expect("rule registered");
    let task_node = Node::Task(engine::nodes::Task {
        subject,
        product: d(200),
        variants: Vec::new(),
        selector: rules[0].clone(),
    });
    assert_eq!(task_node.format(&host), "Task(2a)");
}
