//! The node model: the sum of node variants, the terminal completion
//! outcomes, the states a step can return, and the completion store a step
//! reads its dependencies from.

use vstd::prelude::*;
use crate::keys::{Function, Key, TypeId, Variants};
use crate::selectors;
use crate::selectors::{Selector, selector_eq};
use crate::tasks::{TaskV, task_eq};

verus! {

/// An argument of a `Runnable`: either a literal key or a reference to
/// another node, which the scheduler resolves before dispatch.
#[derive(Clone, Debug, PartialEq, Eq, Hash)]
pub enum Arg {
    Value(Key),
    Node(Node),
}

/// The mathematical model of an argument.
#[verifier::ext_equal]
pub enum ArgV {
    Value(Key),
    Node(NodeV),
}

impl View for Arg {
    type V = ArgV;

    open spec fn view(&self) -> ArgV {
        match self {
            Arg::Value(k) => ArgV::Value(*k),
            Arg::Node(n) => ArgV::Node(n.view()),
        }
    }
}

impl DeepView for Arg {
    type V = ArgV;

    open spec fn deep_view(&self) -> ArgV {
        self.view()
    }
}

/// A description of a host function call: the scheduler executes it and
/// records the host's answer as the node's completion.
#[derive(Clone, Debug, PartialEq, Eq, Hash)]
pub struct Runnable {
    pub func: Function,
    pub args: Vec<Arg>,
    pub cacheable: bool,
}

/// The mathematical model of a `Runnable`.
#[verifier::ext_equal]
pub struct RunnableV {
    pub func: Function,
    pub args: Seq<ArgV>,
    pub cacheable: bool,
}

impl View for Runnable {
    type V = RunnableV;

    open spec fn view(&self) -> RunnableV {
        RunnableV { func: self.func, args: self.args.deep_view(), cacheable: self.cacheable }
    }
}

impl Runnable {
    /// The host callable to execute.
    pub fn func(&self) -> (r: &Function)
        ensures
            *r == self@.func,
    {
        &self.func
    }

    /// The arguments to hand the callable.
    pub fn args(&self) -> (r: &Vec<Arg>)
        ensures
            r.deep_view() == self@.args,
    {
        &self.args
    }

    /// Whether the scheduler may cache the call's result.
    pub fn cacheable(&self) -> (r: bool)
        ensures
            r == self@.cacheable,
    {
        self.cacheable
    }
}

/// The terminal result of a node.
#[derive(Clone, Debug, PartialEq, Eq, Hash)]
pub enum Complete {
    /// Resolution-time absence: no rule matched or a prerequisite was
    /// absent, with a reason and an optional blamed node.  Not an error.
    Noop(&'static str, Option<Node>),
    /// The node produced a product value.
    Return(Key),
    /// A rule-level failure that must propagate verbatim.
    Throw(String),
}

/// The mathematical model of a completion.
#[verifier::ext_equal]
pub enum CompleteV {
    Noop(Seq<char>, Option<NodeV>),
    Return(Key),
    Throw(Seq<char>),
}

impl View for Complete {
    type V = CompleteV;

    open spec fn view(&self) -> CompleteV {
        match self {
            Complete::Noop(reason, cause) => CompleteV::Noop(reason.view(), cause.deep_view()),
            Complete::Return(k) => CompleteV::Return(*k),
            Complete::Throw(msg) => CompleteV::Throw(msg.view()),
        }
    }
}

impl DeepView for Complete {
    type V = CompleteV;

    open spec fn deep_view(&self) -> CompleteV {
        self.view()
    }
}

/// The output of one step of a node.
#[derive(Clone, Debug, PartialEq, Eq, Hash)]
pub enum State {
    /// The listed dependencies must complete before progress.
    Waiting(Vec<Node>),
    /// Terminal: no host call required.
    Complete(Complete),
    /// Ready for the host to execute.
    Runnable(Runnable),
}

/// The mathematical model of a state.
#[verifier::ext_equal]
pub enum StateV {
    Waiting(Seq<NodeV>),
    Complete(CompleteV),
    Runnable(RunnableV),
}

impl View for State {
    type V = StateV;

    open spec fn view(&self) -> StateV {
        match self {
            State::Waiting(deps) => StateV::Waiting(deps.deep_view()),
            State::Complete(c) => StateV::Complete(c.view()),
            State::Runnable(r) => StateV::Runnable(r.view()),
        }
    }
}

/// A node that selects a product for a subject, possibly discriminated by a
/// variant key.
#[derive(Clone, Debug, PartialEq, Eq, Hash)]
pub struct Select {
    pub subject: Key,
    pub variants: Variants,
    pub selector: selectors::Select,
}

/// The mathematical model of a `Select` node.
#[verifier::ext_equal]
pub struct SelectNodeV {
    pub subject: Key,
    pub variants: Seq<(Key, Key)>,
    pub selector: selectors::Select,
}

impl View for Select {
    type V = SelectNodeV;

    open spec fn view(&self) -> SelectNodeV {
        SelectNodeV { subject: self.subject, variants: self.variants@, selector: self.selector }
    }
}

/// A node that unconditionally completes with the literal subject carried by
/// its selector.
#[derive(Clone, Debug, PartialEq, Eq, Hash)]
pub struct SelectLiteral {
    pub subject: Key,
    pub variants: Variants,
    pub selector: selectors::SelectLiteral,
}

/// The mathematical model of a `SelectLiteral` node.
#[verifier::ext_equal]
pub struct SelectLiteralNodeV {
    pub subject: Key,
    pub variants: Seq<(Key, Key)>,
    pub selector: selectors::SelectLiteral,
}

impl View for SelectLiteral {
    type V = SelectLiteralNodeV;

    open spec fn view(&self) -> SelectLiteralNodeV {
        SelectLiteralNodeV { subject: self.subject, variants: self.variants@, selector: self.selector }
    }
}

/// A node that selects the product for each member of a collection-valued
/// field on another product computed for the subject, preserving the field's
/// declaration order.
#[derive(Clone, Debug, PartialEq, Eq, Hash)]
pub struct SelectDependencies {
    pub subject: Key,
    pub variants: Variants,
    pub selector: selectors::SelectDependencies,
}

/// The mathematical model of a `SelectDependencies` node.
#[verifier::ext_equal]
pub struct SelectDependenciesNodeV {
    pub subject: Key,
    pub variants: Seq<(Key, Key)>,
    pub selector: selectors::SelectDependencies,
}

impl View for SelectDependencies {
    type V = SelectDependenciesNodeV;

    open spec fn view(&self) -> SelectDependenciesNodeV {
        SelectDependenciesNodeV { subject: self.subject, variants: self.variants@, selector: self.selector }
    }
}

/// A node that emits a `Runnable` projecting a single field on a computed
/// input value.
#[derive(Clone, Debug, PartialEq, Eq, Hash)]
pub struct ProjectField {
    pub subject: Key,
    pub variants: Variants,
    pub selector: selectors::SelectProjection,
}

/// The mathematical model of a `ProjectField` node.
#[verifier::ext_equal]
pub struct ProjectFieldNodeV {
    pub subject: Key,
    pub variants: Seq<(Key, Key)>,
    pub selector: selectors::SelectProjection,
}

impl View for ProjectField {
    type V = ProjectFieldNodeV;

    open spec fn view(&self) -> ProjectFieldNodeV {
        ProjectFieldNodeV { subject: self.subject, variants: self.variants@, selector: self.selector }
    }
}

/// A node that selects the product for a subject projected out of a field on
/// another product computed for the original subject.
#[derive(Clone, Debug, PartialEq, Eq, Hash)]
pub struct SelectProjection {
    pub subject: Key,
    pub variants: Variants,
    pub selector: selectors::SelectProjection,
}

/// The mathematical model of a `SelectProjection` node.
#[verifier::ext_equal]
pub struct SelectProjectionNodeV {
    pub subject: Key,
    pub variants: Seq<(Key, Key)>,
    pub selector: selectors::SelectProjection,
}

impl View for SelectProjection {
    type V = SelectProjectionNodeV;

    open spec fn view(&self) -> SelectProjectionNodeV {
        SelectProjectionNodeV { subject: self.subject, variants: self.variants@, selector: self.selector }
    }
}

/// A node that evaluates a registered rule's clause and, once every input is
/// available, emits a `Runnable` for the rule's function.
#[derive(Clone, Debug, PartialEq, Eq, Hash)]
pub struct Task {
    pub subject: Key,
    pub product: TypeId,
    pub variants: Variants,
    pub selector: crate::tasks::Task,
}

/// The mathematical model of a `Task` node.
#[verifier::ext_equal]
pub struct TaskNodeV {
    pub subject: Key,
    pub product: TypeId,
    pub variants: Seq<(Key, Key)>,
    pub selector: TaskV,
}

impl View for Task {
    type V = TaskNodeV;

    open spec fn view(&self) -> TaskNodeV {
        TaskNodeV {
            subject: self.subject,
            product: self.product,
            variants: self.variants@,
            selector: self.selector@,
        }
    }
}

/// One attempt to satisfy one (selector, subject, variants) triple.  A
/// node's identity is the structural equality of all its fields; two nodes
/// with identical fields are the same cache entry.
#[derive(Clone, Debug, PartialEq, Eq, Hash)]
pub enum Node {
    Select(Select),
    SelectLiteral(SelectLiteral),
    SelectDependencies(SelectDependencies),
    ProjectField(ProjectField),
    SelectProjection(SelectProjection),
    Task(Task),
}

/// The mathematical model of a node.
#[verifier::ext_equal]
pub enum NodeV {
    Select(SelectNodeV),
    SelectLiteral(SelectLiteralNodeV),
    SelectDependencies(SelectDependenciesNodeV),
    ProjectField(ProjectFieldNodeV),
    SelectProjection(SelectProjectionNodeV),
    Task(TaskNodeV),
}

impl View for Node {
    type V = NodeV;

    open spec fn view(&self) -> NodeV {
        match self {
            Node::Select(n) => NodeV::Select(n.view()),
            Node::SelectLiteral(n) => NodeV::SelectLiteral(n.view()),
            Node::SelectDependencies(n) => NodeV::SelectDependencies(n.view()),
            Node::ProjectField(n) => NodeV::ProjectField(n.view()),
            Node::SelectProjection(n) => NodeV::SelectProjection(n.view()),
            Node::Task(n) => NodeV::Task(n.view()),
        }
    }
}

impl DeepView for Node {
    type V = NodeV;

    open spec fn deep_view(&self) -> NodeV {
        self.view()
    }
}

/// Structural equality of two variant lists.
pub fn variants_eq(a: &Variants, b: &Variants) -> (r: bool)
    ensures
        r == (a@ == b@),
{
    let n = a.len();
    if n != b.len() {
        return false;
    }
    let mut i: usize = 0;
    while i < n
        invariant
            n == a@.len(),
            n == b@.len(),
            i <= n,
            forall|j: int| 0 <= j < i ==> a@[j] == b@[j],
        decreases n - i,
    {
        let x = a[i];
        let y = b[i];
        if x.0 != y.0 || x.1 != y.1 {
            return false;
        }
        i += 1;
    }
    proof {
        assert(a@ =~= b@);
    }
    true
}

/// Structural equality of two nodes: exactly when their models coincide.
pub fn node_eq(a: &Node, b: &Node) -> (r: bool)
    ensures
        r == (a@ == b@),
{
    match (a, b) {
        (Node::Select(x), Node::Select(y)) => {
            x.subject == y.subject && variants_eq(&x.variants, &y.variants)
                && selector_eq(&Selector::Select(x.selector), &Selector::Select(y.selector))
        },
        (Node::SelectLiteral(x), Node::SelectLiteral(y)) => {
            x.subject == y.subject && variants_eq(&x.variants, &y.variants)
                && selector_eq(
                &Selector::SelectLiteral(x.selector),
                &Selector::SelectLiteral(y.selector),
            )
        },
        (Node::SelectDependencies(x), Node::SelectDependencies(y)) => {
            x.subject == y.subject && variants_eq(&x.variants, &y.variants)
                && selector_eq(
                &Selector::SelectDependencies(x.selector),
                &Selector::SelectDependencies(y.selector),
            )
        },
        (Node::ProjectField(x), Node::ProjectField(y)) => {
            x.subject == y.subject && variants_eq(&x.variants, &y.variants)
                && selector_eq(
                &Selector::SelectProjection(x.selector),
                &Selector::SelectProjection(y.selector),
            )
        },
        (Node::SelectProjection(x), Node::SelectProjection(y)) => {
            x.subject == y.subject && variants_eq(&x.variants, &y.variants)
                && selector_eq(
                &Selector::SelectProjection(x.selector),
                &Selector::SelectProjection(y.selector),
            )
        },
        (Node::Task(x), Node::Task(y)) => {
            x.subject == y.subject && x.product == y.product
                && variants_eq(&x.variants, &y.variants) && task_eq(&x.selector, &y.selector)
        },
        _ => false,
    }
}

/// The node denoted by a selector applied to a subject and variants.  A
/// `SelectLiteral` intentionally ignores the dynamic subject and carries its
/// own.
pub open spec fn create_model(selector: Selector, subject: Key, variants: Seq<(Key, Key)>) -> NodeV {
    match selector {
        Selector::Select(s) => NodeV::Select(SelectNodeV { subject, variants, selector: s }),
        Selector::SelectLiteral(s) => NodeV::SelectLiteral(
            SelectLiteralNodeV { subject: s.subject, variants, selector: s },
        ),
        Selector::SelectDependencies(s) => NodeV::SelectDependencies(
            SelectDependenciesNodeV { subject, variants, selector: s },
        ),
        Selector::SelectProjection(s) => NodeV::SelectProjection(
            SelectProjectionNodeV { subject, variants, selector: s },
        ),
    }
}

/// The subject a node is about.
pub open spec fn subject_model(n: NodeV) -> Key {
    match n {
        NodeV::Select(s) => s.subject,
        NodeV::SelectLiteral(s) => s.subject,
        NodeV::SelectDependencies(s) => s.subject,
        NodeV::ProjectField(p) => p.subject,
        NodeV::SelectProjection(s) => s.subject,
        NodeV::Task(t) => t.subject,
    }
}

/// The product a node is trying to produce.
pub open spec fn product_model(n: NodeV) -> TypeId {
    match n {
        NodeV::Select(s) => s.selector.product,
        NodeV::SelectLiteral(s) => s.selector.product,
        NodeV::SelectDependencies(s) => s.selector.product,
        NodeV::ProjectField(p) => p.selector.projected_subject,
        NodeV::SelectProjection(s) => s.selector.product,
        NodeV::Task(t) => t.selector.product,
    }
}

impl Node {
    /// Builds the node a selector denotes for a subject and variants.
    pub fn create(selector: Selector, subject: Key, variants: Variants) -> (r: Node)
        ensures
            r@ == create_model(selector, subject, variants@),
    {
        match selector {
            Selector::Select(s) => Node::Select(Select { subject, variants, selector: s }),
            Selector::SelectLiteral(s) => Node::SelectLiteral(
                SelectLiteral { subject: s.subject, variants, selector: s },
            ),
            Selector::SelectDependencies(s) => Node::SelectDependencies(
                SelectDependencies { subject, variants, selector: s },
            ),
            Selector::SelectProjection(s) => Node::SelectProjection(
                SelectProjection { subject, variants, selector: s },
            ),
        }
    }

    /// The subject the node is about.
    pub fn subject(&self) -> (r: &Key)
        ensures
            *r == subject_model(self@),
    {
        match self {
            Node::Select(s) => &s.subject,
            Node::SelectLiteral(s) => &s.subject,
            Node::SelectDependencies(s) => &s.subject,
            Node::ProjectField(p) => &p.subject,
            Node::SelectProjection(s) => &s.subject,
            Node::Task(t) => &t.subject,
        }
    }

    /// The product the node is trying to produce.
    pub fn product(&self) -> (r: &TypeId)
        ensures
            *r == product_model(self@),
    {
        match self {
            Node::Select(s) => &s.selector.product,
            Node::SelectLiteral(s) => &s.selector.product,
            Node::SelectDependencies(s) => &s.selector.product,
            Node::ProjectField(p) => &p.selector.projected_subject,
            Node::SelectProjection(s) => &s.selector.product,
            Node::Task(t) => &t.selector.product,
        }
    }
}

/// The map denoted by a completion store's entries.
pub open spec fn completions_map(s: Seq<(Node, Complete)>) -> Map<NodeV, CompleteV>
    decreases s.len(),
{
    if s.len() == 0 {
        Map::empty()
    } else {
        completions_map(s.drop_last()).insert(s.last().0@, s.last().1@)
    }
}

/// A key is in the map exactly when some entry carries it.
pub proof fn lemma_completions_map_contains(s: Seq<(Node, Complete)>, k: NodeV)
    ensures
        completions_map(s).contains_key(k) <==> exists|i: int| 0 <= i < s.len() && s[i].0@ == k,
    decreases s.len(),
{
    if s.len() == 0 {
    } else {
        lemma_completions_map_contains(s.drop_last(), k);
        if s.last().0@ == k {
            assert(s[s.len() - 1].0@ == k);
        } else if completions_map(s).contains_key(k) {
            let i = choose|i: int| 0 <= i < s.drop_last().len() && s.drop_last()[i].0@ == k;
            assert(s[i].0@ == k);
        } else {
            if exists|i: int| 0 <= i < s.len() && s[i].0@ == k {
                let i = choose|i: int| 0 <= i < s.len() && s[i].0@ == k;
                assert(i < s.len() - 1);
                assert(s.drop_last()[i].0@ == k);
            }
        }
    }
}

/// With pairwise-distinct keys, the map answers each entry's key with that
/// entry's completion.
pub proof fn lemma_completions_map_get(s: Seq<(Node, Complete)>, i: int)
    requires
        forall|p: int, q: int| 0 <= p < q < s.len() ==> s[p].0@ != s[q].0@,
        0 <= i < s.len(),
    ensures
        completions_map(s).contains_key(s[i].0@),
        completions_map(s)[s[i].0@] == s[i].1@,
    decreases s.len(),
{
    if i == s.len() - 1 {
    } else {
        assert(forall|p: int, q: int|
            0 <= p < q < s.drop_last().len() ==> s.drop_last()[p].0@ != s.drop_last()[q].0@);
        lemma_completions_map_get(s.drop_last(), i);
        assert(s.drop_last()[i] == s[i]);
        assert(s[i].0@ != s[s.len() - 1].0@);
    }
}

/// A read-only store of the completions of already-known dependencies,
/// keyed by node identity.
pub struct Completions {
    entries: Vec<(Node, Complete)>,
}

impl View for Completions {
    type V = Map<NodeV, CompleteV>;

    closed spec fn view(&self) -> Map<NodeV, CompleteV> {
        completions_map(self.entries@)
    }
}

impl Completions {
    /// The store holds each node at most once.
    pub closed spec fn wf(&self) -> bool {
        forall|p: int, q: int|
            0 <= p < q < self.entries@.len() ==> self.entries@[p].0@ != self.entries@[q].0@
    }

    /// An empty store.
    pub fn new() -> (r: Completions)
        ensures
            r@ == Map::<NodeV, CompleteV>::empty(),
            r.wf(),
    {
        let r = Completions { entries: Vec::new() };
        proof {
            assert(r@ =~= Map::<NodeV, CompleteV>::empty());
        }
        r
    }

    /// Records a node's completion.  A node completes at most once, so the
    /// node must not be in the store yet.
    pub fn insert(&mut self, node: Node, complete: Complete)
        requires
            old(self).wf(),
            !old(self)@.contains_key(node@),
        ensures
            final(self).wf(),
            final(self)@ == old(self)@.insert(node@, complete@),
    {
        proof {
            lemma_completions_map_contains(self.entries@, node@);
        }
        self.entries.push((node, complete));
        proof {
            assert(self.entries@.drop_last() =~= old(self).entries@);
            assert(final(self)@ == old(self)@.insert(node@, complete@));
            assert(forall|p: int| 0 <= p < old(self).entries@.len()
                ==> old(self).entries@[p] == self.entries@[p]);
        }
    }

    /// Looks a node's completion up by structural identity.
    pub fn get(&self, node: &Node) -> (r: Option<&Complete>)
        requires
            self.wf(),
        ensures
            (match r {
                Some(c) => self@.contains_key(node@) && c@ == self@[node@],
                None => !self@.contains_key(node@),
            }),
    {
        let n = self.entries.len();
        let mut i: usize = 0;
        while i < n
            invariant
                self.wf(),
                n == self.entries@.len(),
                i <= n,
                forall|j: int| 0 <= j < i ==> self.entries@[j].0@ != node@,
            decreases n - i,
        {
            let entry = &self.entries[i];
            if node_eq(&entry.0, node) {
                proof {
                    lemma_completions_map_get(self.entries@, i as int);
                }
                return Some(&entry.1);
            }
            i += 1;
        }
        proof {
            lemma_completions_map_contains(self.entries@, node@);
        }
        None
    }

    /// The number of recorded completions.
    pub fn len(&self) -> (r: usize)
        requires
            self.wf(),
        ensures
            r == self@.dom().len(),
    {
        proof {
            lemma_completions_len(self.entries@);
        }
        self.entries.len()
    }
}

/// With pairwise-distinct keys, the map's domain is as large as the entry
/// list.
pub proof fn lemma_completions_len(s: Seq<(Node, Complete)>)
    requires
        forall|p: int, q: int| 0 <= p < q < s.len() ==> s[p].0@ != s[q].0@,
    ensures
        completions_map(s).dom().finite(),
        completions_map(s).dom().len() == s.len(),
    decreases s.len(),
{
    if s.len() == 0 {
        assert(completions_map(s).dom() =~= Set::<NodeV>::empty());
    } else {
        assert(forall|p: int, q: int|
            0 <= p < q < s.drop_last().len() ==> s.drop_last()[p].0@ != s.drop_last()[q].0@);
        lemma_completions_len(s.drop_last());
        lemma_completions_map_contains(s.drop_last(), s.last().0@);
        assert(forall|i: int| 0 <= i < s.drop_last().len() ==> s.drop_last()[i] == s[i]);
        assert(!completions_map(s.drop_last()).contains_key(s.last().0@));
        assert(completions_map(s).dom() =~= completions_map(s.drop_last()).dom().insert(s.last().0@));
    }
}

} // verus!
