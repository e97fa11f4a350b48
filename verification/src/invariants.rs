use vstd::prelude::*;
use vstd::string::*;

use crate::context::ContextState;
use crate::ids::FactId;
use crate::text::owned;

verus! {

/// The class of an invariant determines when it's checked and how violations are handled.
#[derive(Debug, Clone, Copy, PartialEq, Eq, Hash, Structural)]
pub enum InvariantClass {
    /// Checked on every merge. Violation causes immediate failure.
    Structure,
    /// Checked at the end of each cycle. Violation blocks convergence.
    Semantic,
    /// Checked when convergence is claimed. Violation rejects results.
    Acceptance,
}

/// The variant name of an invariant class.
pub open spec fn invariant_class_name(c: InvariantClass) -> Seq<char> {
    match c {
        InvariantClass::Structure => seq!['S', 't', 'r', 'u', 'c', 't', 'u', 'r', 'a', 'l'],
        InvariantClass::Semantic => seq!['S', 'e', 'm', 'a', 'n', 't', 'i', 'c'],
        InvariantClass::Acceptance => seq!['A', 'c', 'c', 'e', 'p', 't', 'a', 'n', 'c', 'e'],
    }
}

impl InvariantClass {
    /// The variant name, as the debug form prints it.
    pub fn name(&self) -> (r: &'static str)
        ensures
            r@ == invariant_class_name(*self),
    {
        match self {
            InvariantClass::Structure => {
                let s = "Structural";
                proof { reveal_strlit("Structural"); }
                s
            },
            InvariantClass::Semantic => {
                let s = "Semantic";
                proof { reveal_strlit("Semantic"); }
                s
            },
            InvariantClass::Acceptance => {
                let s = "Acceptance";
                proof { reveal_strlit("Acceptance"); }
                s
            },
        }
    }
}


/// Details of an invariant violation.
#[derive(Debug, Clone, PartialEq)]
pub struct Violation {
    /// Human-readable description of what went wrong.
    pub reason: String,
    /// Which facts contributed to the violation.
    pub fact_ids: Vec<FactId>,
}

impl Violation {
    /// Creates a violation with just a reason.
    pub fn new(reason: &str) -> (r: Self)
        ensures
            r.reason@ == reason@,
            r.fact_ids@.len() == 0,
    {
        Violation { reason: owned(reason), fact_ids: Vec::new() }
    }

    /// Creates a violation with associated fact identifiers.
    pub fn with_facts(reason: &str, fact_ids: Vec<FactId>) -> (r: Self)
        ensures
            r.reason@ == reason@,
            r.fact_ids == fact_ids,
    {
        Violation { reason: owned(reason), fact_ids }
    }
}

/// The result of checking an invariant.
#[derive(Debug, Clone, PartialEq)]
pub enum InvariantResult {
    /// Invariant holds.
    Holds,
    /// Invariant is violated.
    Violated(Violation),
}

impl InvariantResult {
    /// Returns true if the invariant holds.
    pub fn is_ok(&self) -> (r: bool)
        ensures
            r == (*self is Holds),
    {
        match self {
            InvariantResult::Holds => true,
            InvariantResult::Violated(_) => false,
        }
    }

    /// Returns true if the invariant is violated.
    pub fn is_violated(&self) -> (r: bool)
        ensures
            r == (*self is Violated),
    {
        match self {
            InvariantResult::Holds => false,
            InvariantResult::Violated(_) => true,
        }
    }
}

/// A runtime invariant that the engine enforces; implemented by users.
pub trait Invariant {
    /// Human-readable name for tracing and error messages.
    fn name(&self) -> &str;

    /// The class determines when this invariant is checked.
    fn class(&self) -> InvariantClass;

    /// Checks the invariant against the current context.
    fn check(&self, ctx: &ContextState) -> InvariantResult;
}

/// Unique identifier for a registered invariant.
#[derive(Debug, Clone, Copy, PartialEq, Eq, Hash, Structural)]
pub struct InvariantId(pub u32);

/// Error returned when an invariant is violated.
#[derive(Debug, Clone)]
pub struct InvariantError {
    /// Name of the invariant that was violated.
    pub invariant_name: String,
    /// Class of the invariant.
    pub class: InvariantClass,
    /// Details of the violation.
    pub violation: Violation,
}

/// The message of an invariant error: `<Class> invariant '<name>' violated: <reason>`.
pub open spec fn invariant_error_text(class: InvariantClass, name: Seq<char>, reason: Seq<char>) -> Seq<char> {
    invariant_class_name(class) + " invariant '"@ + name + "' violated: "@ + reason
}

impl InvariantError {
    /// Renders the error as its display form shows it.
    pub fn to_text(&self) -> (r: String)
        ensures
            r@ == invariant_error_text(self.class, self.invariant_name@, self.violation.reason@),
    {
        let mut s = String::new();
        s.append(self.class.name());
        s.append(" invariant '");
        s.append(self.invariant_name.as_str());
        s.append("' violated: ");
        s.append(self.violation.reason.as_str());
        s
    }
}

/// The outcome of checking a class of invariants, given each checked invariant's name
/// and result in registration order: the first violation, or success.
pub open spec fn first_violation_index(outcomes: Seq<(Seq<char>, InvariantResult)>) -> int
    decreases outcomes.len(),
{
    if outcomes.len() == 0 {
        -1
    } else if first_violation_index(outcomes.drop_last()) >= 0 {
        first_violation_index(outcomes.drop_last())
    } else if outcomes.last().1 is Violated {
        outcomes.len() - 1
    } else {
        -1
    }
}

/// The views of a list of named outcomes.
pub open spec fn outcome_views(s: Seq<(String, InvariantResult)>) -> Seq<(Seq<char>, InvariantResult)> {
    s.map_values(|p: (String, InvariantResult)| (p.0@, p.1))
}

/// Picks the first violation among the outcomes of one class of invariants.
#[verifier::loop_isolation(false)]
pub fn first_violation(class: InvariantClass, outcomes: Vec<(String, InvariantResult)>) -> (r: Result<(), InvariantError>)
    ensures
        first_violation_index(outcome_views(outcomes@)) < 0 ==> r is Ok,
        first_violation_index(outcome_views(outcomes@)) >= 0 ==> (r matches Err(e) && {
            let k = first_violation_index(outcome_views(outcomes@));
            &&& e.class == class
            &&& e.invariant_name@ == outcomes@[k].0@
            &&& outcomes@[k].1 == InvariantResult::Violated(e.violation)
        }),
{
    let ghost all = outcome_views(outcomes@);
    let ghost original = outcomes@;
    let mut items = outcomes;
    let mut i: usize = 0;
    while i < items.len()
        invariant
            i <= items@.len(),
            items@ == original,
            all == outcome_views(original),
            first_violation_index(all.take(i as int)) < 0,
        decreases items.len() - i,
    {
        assert(all.take(i as int + 1).drop_last() == all.take(i as int));
        if items[i].1.is_violated() {
            assert(first_violation_index(all.take(i as int + 1)) == i);
            proof { lemma_first_violation_prefix(all, i as int + 1); }
            let (name, result) = items.remove(i);
            match result {
                InvariantResult::Violated(violation) => {
                    return Err(InvariantError { invariant_name: name, class, violation });
                },
                InvariantResult::Holds => {
                    assert(false);
                    return Ok(());
                },
            }
        }
        i = i + 1;
    }
    assert(all.take(original.len() as int) == all);
    Ok(())
}

/// Once a prefix holds a violation, every longer list keeps that first violation.
pub proof fn lemma_first_violation_prefix(all: Seq<(Seq<char>, InvariantResult)>, n: int)
    requires
        0 <= n <= all.len(),
        first_violation_index(all.take(n)) >= 0,
    ensures
        first_violation_index(all) == first_violation_index(all.take(n)),
    decreases all.len() - n,
{
    if n < all.len() {
        assert(all.take(n + 1).drop_last() == all.take(n));
        lemma_first_violation_prefix(all, n + 1);
    } else {
        assert(all.take(n) == all);
    }
}

/// Registry of invariants, checked class by class in registration order.
pub struct InvariantRegistry {
    invariants: Vec<Box<dyn Invariant>>,
    classes: Vec<InvariantClass>,
    next_id: u32,
}

impl InvariantRegistry {
    /// The classes of the registered invariants, in registration order.
    pub closed spec fn classes_spec(&self) -> Seq<InvariantClass> {
        self.classes@
    }

    /// Internal consistency: identifiers are counted from zero.
    pub closed spec fn wf(&self) -> bool {
        self.next_id == self.classes@.len()
    }

    /// Creates an empty registry.
    pub fn new() -> (r: Self)
        ensures
            r.wf(),
            r.classes_spec() == Seq::<InvariantClass>::empty(),
    {
        InvariantRegistry { invariants: Vec::new(), classes: Vec::new(), next_id: 0 }
    }

    /// Registers an invariant and returns its identifier (its registration position).
    pub fn register<I: Invariant + 'static>(&mut self, item: I) -> (r: InvariantId)
        requires
            old(self).wf(),
            old(self).classes_spec().len() < u32::MAX,
        ensures
            final(self).wf(),
            r.0 == old(self).classes_spec().len(),
            final(self).classes_spec().len() == old(self).classes_spec().len() + 1,
            final(self).classes_spec().take(old(self).classes_spec().len() as int) == old(self).classes_spec(),
    {
        let id = InvariantId(self.next_id);
        self.next_id = self.next_id + 1;
        let class = item.class();
        self.classes.push(class);
        let b: Box<dyn Invariant> = Box::new(item);
        self.invariants.push(b);
        assert(self.classes@.take(old(self).classes@.len() as int) =~= old(self).classes@);
        id
    }

    /// Returns the number of registered invariants.
    pub fn count(&self) -> (r: usize)
        requires
            self.wf(),
        ensures
            r == self.classes_spec().len(),
    {
        self.classes.len()
    }

    /// Checks the invariants of one class in registration order and reports the first
    /// violation. With no invariant of that class the check always passes.
    pub fn check_class(&self, class: InvariantClass, ctx: &ContextState) -> (r: Result<(), InvariantError>)
        requires
            self.wf(),
        ensures
            (forall|i: int| 0 <= i < self.classes_spec().len() ==> #[trigger] self.classes_spec()[i] != class)
                ==> r is Ok,
            r matches Err(e) ==> e.class == class,
    {
        let mut i: usize = 0;
        while i < self.classes.len()
            invariant
                self.wf(),
                i <= self.classes@.len(),
            decreases self.classes.len() - i,
        {
            if self.classes[i] == class && i < self.invariants.len() {
                let result = self.invariants[i].check(ctx);
                match result {
                    InvariantResult::Violated(violation) => {
                        assert(self.classes_spec()[i as int] == class);
                        let name = owned(self.invariants[i].name());
                        return Err(InvariantError { invariant_name: name, class, violation });
                    },
                    InvariantResult::Holds => {},
                }
            }
            i = i + 1;
        }
        Ok(())
    }

    /// Checks all structural invariants.
    pub fn check_structural(&self, ctx: &ContextState) -> (r: Result<(), InvariantError>)
        requires
            self.wf(),
        ensures
            (forall|i: int|
                0 <= i < self.classes_spec().len() ==> #[trigger] self.classes_spec()[i] != InvariantClass::Structure)
                ==> r is Ok,
            r matches Err(e) ==> e.class == InvariantClass::Structure,
    {
        self.check_class(InvariantClass::Structure, ctx)
    }

    /// Checks all semantic invariants.
    pub fn check_semantic(&self, ctx: &ContextState) -> (r: Result<(), InvariantError>)
        requires
            self.wf(),
        ensures
            (forall|i: int|
                0 <= i < self.classes_spec().len() ==> #[trigger] self.classes_spec()[i] != InvariantClass::Semantic)
                ==> r is Ok,
            r matches Err(e) ==> e.class == InvariantClass::Semantic,
    {
        self.check_class(InvariantClass::Semantic, ctx)
    }

    /// Checks all acceptance invariants.
    pub fn check_acceptance(&self, ctx: &ContextState) -> (r: Result<(), InvariantError>)
        requires
            self.wf(),
        ensures
            (forall|i: int|
                0 <= i < self.classes_spec().len() ==> #[trigger] self.classes_spec()[i] != InvariantClass::Acceptance)
                ==> r is Ok,
            r matches Err(e) ==> e.class == InvariantClass::Acceptance,
    {
        self.check_class(InvariantClass::Acceptance, ctx)
    }
}

} // verus!
