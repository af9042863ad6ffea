//! What a plan node is known to be: the orderings of its output, how it is
//! partitioned, how it emits and whether it ends.

use crate::schema::{fields_of, FieldModel};
use crate::sort::{orderings_view, SortExprModel, SortOrdering};
use crate::text::{joined, push_joined};
use arrow::datatypes::Schema;
use std::sync::Arc;
use vstd::prelude::*;

verus! {

/// How the output of a node is split into partitions.
#[derive(Clone, Copy, Debug, PartialEq, Eq)]
pub enum Partitioning {
    /// That many partitions, with nothing known of what goes where.
    UnknownPartitioning(usize),
}

impl Partitioning {
    /// The number of partitions.
    pub open spec fn count(self) -> nat {
        match self {
            Partitioning::UnknownPartitioning(n) => n as nat,
        }
    }

    /// The number of partitions.
    pub fn partition_count(&self) -> (r: usize)
        ensures
            r == self.count(),
    {
        match self {
            Partitioning::UnknownPartitioning(n) => *n,
        }
    }
}

/// When a node hands out its results.
#[derive(Clone, Copy, Debug, PartialEq, Eq)]
pub enum EmissionType {
    /// As they come.
    Incremental,
    /// Only when all input is read.
    Final,
    /// Some as they come, the rest at the end.
    Both,
}

/// Whether a node's output ends.
#[derive(Clone, Copy, Debug, PartialEq, Eq)]
pub enum Boundedness {
    /// It ends.
    Bounded,
    /// It may go on for ever.
    Unbounded { requires_infinite_memory: bool },
}

/// A constraint on the rows of a table.
#[derive(Debug, PartialEq, Eq)]
pub enum Constraint {
    /// The columns at these positions form a primary key.
    PrimaryKey(Vec<usize>),
    /// The columns at these positions are unique together.
    Unique(Vec<usize>),
}

/// What a constraint says.
pub enum ConstraintModel {
    PrimaryKey(Seq<usize>),
    Unique(Seq<usize>),
}

impl View for Constraint {
    type V = ConstraintModel;

    open spec fn view(&self) -> ConstraintModel {
        match self {
            Constraint::PrimaryKey(columns) => ConstraintModel::PrimaryKey(columns@),
            Constraint::Unique(columns) => ConstraintModel::Unique(columns@),
        }
    }
}

/// What a list of constraints says.
pub open spec fn constraints_view(constraints: Seq<Constraint>) -> Seq<ConstraintModel> {
    Seq::new(constraints.len(), |i: int| constraints[i]@)
}

/// How a constraint is written: its kind, then its columns as a bracketed
/// list in round brackets.
pub open spec fn constraint_text(constraint: ConstraintModel) -> Seq<char> {
    match constraint {
        ConstraintModel::PrimaryKey(columns) => "PrimaryKey(["@ + joined(columns) + "])"@,
        ConstraintModel::Unique(columns) => "Unique(["@ + joined(columns) + "])"@,
    }
}

/// The constraints of a list, separated by a comma and a space.
pub open spec fn constraints_joined(constraints: Seq<ConstraintModel>) -> Seq<char>
    decreases constraints.len(),
{
    if constraints.len() == 0 {
        Seq::empty()
    } else if constraints.len() == 1 {
        constraint_text(constraints[0])
    } else {
        constraints_joined(constraints.drop_last()) + ", "@ + constraint_text(constraints.last())
    }
}

/// How a list of constraints is written.
pub open spec fn constraints_text(constraints: Seq<ConstraintModel>) -> Seq<char> {
    "constraints=["@ + constraints_joined(constraints) + "]"@
}

/// Appends a list of constraints to `out`.
pub fn push_constraints(out: &mut String, constraints: &Vec<Constraint>)
    ensures
        final(out)@ == old(out)@ + constraints_text(constraints_view(constraints@)),
{
    let ghost view = constraints_view(constraints@);
    out.append("constraints=[");
    let mut i: usize = 0;
    while i < constraints.len()
        invariant
            i <= constraints.len(),
            view == constraints_view(constraints@),
            out@ == old(out)@ + "constraints=["@ + constraints_joined(view.take(i as int)),
        decreases constraints.len() - i,
    {
        let ghost before = out@;
        if i > 0 {
            out.append(", ");
        }
        match &constraints[i] {
            Constraint::PrimaryKey(columns) => {
                out.append("PrimaryKey([");
                push_joined(out, columns);
            },
            Constraint::Unique(columns) => {
                out.append("Unique([");
                push_joined(out, columns);
            },
        }
        out.append("])");
        proof {
            let done = view.take(i as int);
            let now = view.take(i + 1);
            assert(now.drop_last() =~= done);
            assert(now.last() == constraints[i as int]@);
            assert(out@ =~= old(out)@ + "constraints=["@ + constraints_joined(now));
        }
        i += 1;
    }
    assert(view.take(constraints.len() as int) =~= view);
    out.append("]");
    assert(out@ =~= old(out)@ + constraints_text(view));
}

/// The orderings that the output of a node is known to have, over its schema,
/// with the constraints known of it.
pub struct EquivalenceProperties {
    pub schema: Arc<Schema>,
    pub orderings: Vec<SortOrdering>,
    pub constraints: Vec<Constraint>,
}

/// What a node is known to be.
pub struct PlanProperties {
    pub eq_properties: EquivalenceProperties,
    pub partitioning: Partitioning,
    pub emission_type: EmissionType,
    pub boundedness: Boundedness,
}

/// What plan properties say.
pub struct PropertiesModel {
    pub fields: Seq<FieldModel>,
    pub orderings: Seq<Seq<SortExprModel>>,
    pub constraints: Seq<ConstraintModel>,
    pub partitioning: Partitioning,
    pub emission_type: EmissionType,
    pub boundedness: Boundedness,
}

impl View for PlanProperties {
    type V = PropertiesModel;

    open spec fn view(&self) -> PropertiesModel {
        PropertiesModel {
            fields: fields_of(&self.eq_properties.schema),
            orderings: orderings_view(self.eq_properties.orderings@),
            constraints: constraints_view(self.eq_properties.constraints@),
            partitioning: self.partitioning,
            emission_type: self.emission_type,
            boundedness: self.boundedness,
        }
    }
}

impl PlanProperties {
    /// The properties made of their four parts.
    pub fn new(
        eq_properties: EquivalenceProperties,
        partitioning: Partitioning,
        emission_type: EmissionType,
        boundedness: Boundedness,
    ) -> (r: Self)
        ensures
            r.eq_properties == eq_properties,
            r.partitioning == partitioning,
            r.emission_type == emission_type,
            r.boundedness == boundedness,
    {
        PlanProperties { eq_properties, partitioning, emission_type, boundedness }
    }
}

} // verus!
