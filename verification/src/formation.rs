use vstd::prelude::*;

use crate::text::texts;

verus! {

/// How a set of suggestors is formed for a run.
#[derive(Debug, Clone, Copy, PartialEq, Eq, Hash, Structural)]
pub enum FormationKind {
    /// A fixed list of suggestors.
    Static,
    /// The best-scored candidates.
    Scored,
    /// Candidates chosen after deliberation.
    Deliberated,
    /// An open formation that may try variants.
    OpenClaw,
}

/// The name of a formation kind, as its display form shows it.
pub open spec fn formation_kind_text(k: FormationKind) -> Seq<char> {
    match k {
        FormationKind::Static => "static"@,
        FormationKind::Scored => "scored"@,
        FormationKind::Deliberated => "deliberated"@,
        FormationKind::OpenClaw => "open_claw"@,
    }
}

impl FormationKind {
    /// The name its display form shows.
    pub fn to_text(&self) -> (r: &'static str)
        ensures
            r@ == formation_kind_text(*self),
    {
        match self {
            FormationKind::Static => "static",
            FormationKind::Scored => "scored",
            FormationKind::Deliberated => "deliberated",
            FormationKind::OpenClaw => "open_claw",
        }
    }
}

/// A fixed formation: exactly the named suggestors.
#[derive(Debug, Clone)]
pub struct StaticFormation {
    /// The suggestors, by name.
    pub suggestor_names: Vec<String>,
}

impl StaticFormation {
    /// A formation of the named suggestors, in order.
    pub fn new(suggestor_names: Vec<String>) -> (r: Self)
        ensures
            texts(r.suggestor_names@) == texts(suggestor_names@),
    {
        StaticFormation { suggestor_names }
    }
}

} // verus!
