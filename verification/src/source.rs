//! The source: fixed partitions of batches behind a schema, with an
//! optional projection, declared sort orderings and a row limit.

use crate::batch::{clone_batches, clone_partitions, partitions_view, Batch};
use crate::error::SourceError;
use crate::projection::{admits_opt, find_misfit, first_misfit, indices_of, select_opt};
use crate::properties::{
    constraints_text, push_constraints, Boundedness, EmissionType, EquivalenceProperties,
    Partitioning, PlanProperties, PropertiesModel,
};
use crate::schema::{field_count, fields_of, project_schema, share_schema, FieldModel};
use crate::sort::{
    all_named, clone_orderings, find_stray, first_stray, ordering_text,
    orderings_view, plain_orderings, project_orderings, projected_terms, push_ordering,
    SortExprModel, SortOrdering,
};
use crate::statistics::{
    compute_record_batch_statistics, each_wide, looked_at, reading, takes_stock, Statistics,
};
use crate::stream::{
    least, lemma_budget_caps_rows, rows_from, rows_of, MockMemoryStream, StreamModel,
};
use crate::text::{decimal, listed, push_decimal, push_listed};
use arrow::datatypes::Schema;
use datafusion_execution::TaskContext;
use std::sync::Arc;
use vstd::prelude::*;

verus! {

/// datafusion's `TaskContext`. Verus sees nothing inside it.
#[verifier::external_type_specification]
#[verifier::external_body]
pub struct ExTaskContext(TaskContext);

/// How much a plan node says of itself when it is displayed.
#[derive(Clone, Copy, Debug, PartialEq, Eq)]
pub enum DisplayFormatType {
    Default,
    Verbose,
}

/// An in-memory source of record batches, split into partitions.
pub struct MockMemorySourceConfig {
    /// The partitions to query.
    partitions: Vec<Vec<Batch>>,
    /// The schema of the data before the projection.
    schema: Arc<Schema>,
    /// The schema of the data after the projection.
    projected_schema: Arc<Schema>,
    /// The columns to hand out, all of them where there is none.
    projection: Option<Vec<usize>>,
    /// The orderings that the rows are known to have, each of them equivalent
    /// to the others, over the projected schema.
    sort_information: Vec<SortOrdering>,
    /// Whether the sizes of the partitions are displayed.
    show_sizes: bool,
    /// The most rows that a stream hands out, without a bound where there is
    /// none.
    fetch: Option<usize>,
    /// The plan properties, derived from the rest.
    cache: PlanProperties,
}

/// What a source holds.
pub struct SourceModel {
    pub partitions: Seq<Seq<Batch>>,
    pub base: Seq<FieldModel>,
    pub projected: Seq<FieldModel>,
    pub projection: Option<Seq<usize>>,
    pub sort_information: Seq<Seq<SortExprModel>>,
    pub show_sizes: bool,
    pub fetch: Option<usize>,
    pub cache: PropertiesModel,
}

/// The plan properties of a source of `partitions` partitions that hands out
/// `fields` in the declared `orderings`: the orderings over the fields, no
/// constraints, that many partitions of unknown content, incremental
/// emission, bounded.
pub open spec fn properties_of(
    partitions: nat,
    fields: Seq<FieldModel>,
    orderings: Seq<Seq<SortExprModel>>,
) -> PropertiesModel {
    PropertiesModel {
        fields,
        orderings,
        constraints: Seq::empty(),
        partitioning: Partitioning::UnknownPartitioning(partitions as usize),
        emission_type: EmissionType::Incremental,
        boundedness: Boundedness::Bounded,
    }
}

impl SourceModel {
    /// The plan properties that follow from the rest of the source.
    pub open spec fn derived(self) -> PropertiesModel {
        properties_of(self.partitions.len(), self.projected, self.sort_information)
    }

    /// Whether the projection fits the base schema, the projected schema is
    /// the base schema under the projection, and the plan properties are
    /// those that follow from the rest.
    pub open spec fn wf(self) -> bool {
        &&& admits_opt(self.base.len(), self.projection)
        &&& self.projected == select_opt(self.base, self.projection)
        &&& self.cache == self.derived()
    }

    /// The source as it is first built: no orderings, no row limit, the sizes
    /// of the partitions shown.
    pub open spec fn initial(
        partitions: Seq<Seq<Batch>>,
        base: Seq<FieldModel>,
        projection: Option<Seq<usize>>,
    ) -> SourceModel {
        SourceModel {
            partitions,
            base,
            projected: select_opt(base, projection),
            projection,
            sort_information: Seq::empty(),
            show_sizes: true,
            fetch: None,
            cache: properties_of(partitions.len(), select_opt(base, projection), Seq::empty()),
        }
    }

    /// The source with other orderings, and the plan properties that follow.
    pub open spec fn with_orderings(self, orderings: Seq<Seq<SortExprModel>>) -> SourceModel {
        SourceModel {
            sort_information: orderings,
            cache: properties_of(self.partitions.len(), self.projected, orderings),
            ..self
        }
    }

    /// The numbers of batches of the partitions.
    pub open spec fn sizes(self) -> Seq<usize> {
        Seq::new(self.partitions.len(), |p: int| self.partitions[p].len() as usize)
    }

    /// The stream that a partition is opened as.
    pub open spec fn opened(self, partition: int) -> StreamModel {
        StreamModel {
            data: self.partitions[partition],
            reserved: false,
            fields: self.projected,
            projection: self.projection,
            index: 0,
            fetch: self.fetch,
        }
    }

    /// The part of the display that tells of the partitions: their number,
    /// and their sizes where they are shown.
    pub open spec fn rendered_partitions(self) -> Seq<char> {
        "partitions="@ + decimal(self.partitions.len()) + if self.show_sizes {
            ", partition_sizes="@ + listed(self.sizes())
        } else {
            Seq::empty()
        }
    }

    /// The part of the display that tells of the row limit, if there is one.
    pub open spec fn rendered_limit(self) -> Seq<char> {
        match self.fetch {
            Some(limit) => ", fetch="@ + decimal(limit as nat),
            None => Seq::empty(),
        }
    }

    /// The part of the display that tells of the first declared ordering, if
    /// there is one.
    pub open spec fn rendered_order(self) -> Seq<char> {
        if self.sort_information.len() > 0 {
            ", output_ordering="@ + ordering_text(self.sort_information[0])
        } else {
            Seq::empty()
        }
    }

    /// The part of the display that tells of the constraints among the plan
    /// properties, if there are any.
    pub open spec fn rendered_constraints(self) -> Seq<char> {
        if self.derived().constraints.len() > 0 {
            ", "@ + constraints_text(self.derived().constraints)
        } else {
            Seq::empty()
        }
    }

    /// How the source is displayed: its name, then the partitions, the row
    /// limit, the first declared ordering and the constraints.
    pub open spec fn rendered(self) -> Seq<char> {
        "DataSourceExec: "@ + self.rendered_partitions() + self.rendered_limit()
            + self.rendered_order() + self.rendered_constraints()
    }
}

/// The orderings over a schema, without constraints.
fn orderings_over(schema: &Arc<Schema>, orderings: &Vec<SortOrdering>) -> (r: EquivalenceProperties)
    ensures
        fields_of(&r.schema) == fields_of(schema),
        orderings_view(r.orderings@) == orderings_view(orderings@),
        r.constraints@.len() == 0,
{
    EquivalenceProperties {
        schema: share_schema(schema),
        orderings: clone_orderings(orderings),
        constraints: Vec::new(),
    }
}

/// Copies an optional projection.
fn clone_projection(projection: &Option<Vec<usize>>) -> (r: Option<Vec<usize>>)
    ensures
        indices_of(r) == indices_of(*projection),
{
    match projection {
        Some(indices) => {
            let copy = indices.clone();
            assert(copy@ =~= indices@);
            Some(copy)
        },
        None => None,
    }
}

impl MockMemorySourceConfig {
    /// What the source holds.
    pub closed spec fn view(&self) -> SourceModel {
        SourceModel {
            partitions: partitions_view(self.partitions@),
            base: fields_of(&self.schema),
            projected: fields_of(&self.projected_schema),
            projection: indices_of(self.projection),
            sort_information: orderings_view(self.sort_information@),
            show_sizes: self.show_sizes,
            fetch: self.fetch,
            cache: self.cache@,
        }
    }

    /// Whether the source is in order. Every source is.
    #[verifier::type_invariant]
    pub open spec fn wf(&self) -> bool {
        self@.wf()
    }

    /// Opens a partition as a stream over its batches, from the first batch
    /// on, with the source's projection and the whole of its row limit. The
    /// source stays as it is, and the context plays no part.
    pub fn open(&self, partition: usize, _context: Arc<TaskContext>) -> (r: Result<
        MockMemoryStream,
        SourceError,
    >)
        ensures
            match r {
                Ok(stream) => {
                    &&& partition < self@.partitions.len()
                    &&& stream.wf()
                    &&& stream@ == self@.opened(partition as int)
                },
                Err(error) => {
                    &&& partition >= self@.partitions.len()
                    &&& error == SourceError::Index {
                        index: partition,
                        len: self@.partitions.len() as usize,
                    }
                },
            },
    {
        if partition >= self.partitions.len() {
            return Err(SourceError::Index { index: partition, len: self.partitions.len() });
        }
        let data = clone_batches(&self.partitions[partition]);
        let schema = share_schema(&self.projected_schema);
        let projection = clone_projection(&self.projection);
        match MockMemoryStream::try_new(data, schema, projection) {
            Ok(stream) => Ok(stream.with_fetch(self.fetch)),
            Err(error) => Err(error),
        }
    }

    /// Derives the plan properties from the rest of the source.
    fn compute_properties(&self) -> (r: PlanProperties)
        ensures
            r@ == self@.derived(),
    {
        let r = PlanProperties::new(
            self.eq_properties(),
            self.output_partitioning(),
            EmissionType::Incremental,
            Boundedness::Bounded,
        );
        assert(r@.constraints =~= self@.derived().constraints);
        r
    }

    /// As many partitions as the source has, of unknown content.
    fn output_partitioning(&self) -> (r: Partitioning)
        ensures
            r == Partitioning::UnknownPartitioning(self@.partitions.len() as usize),
    {
        Partitioning::UnknownPartitioning(self.partitions.len())
    }

    /// The declared orderings over the projected schema, without constraints.
    fn eq_properties(&self) -> (r: EquivalenceProperties)
        ensures
            fields_of(&r.schema) == self@.projected,
            orderings_view(r.orderings@) == self@.sort_information,
            r.constraints@.len() == 0,
    {
        orderings_over(&self.projected_schema, &self.sort_information)
    }

    /// Builds a source over `partitions`, whose batches have the schema
    /// `schema`, handing out the columns of `projection`. It fails where the
    /// projection holds an index out of range for the schema, and names the
    /// first such index.
    pub fn try_new(partitions: &[Vec<Batch>], schema: Arc<Schema>, projection: Option<Vec<usize>>) -> (r:
        Result<Self, SourceError>)
        ensures
            r is Ok <==> admits_opt(fields_of(&schema).len(), indices_of(projection)),
            match r {
                Ok(source) => {
                    &&& source.wf()
                    &&& source@ == SourceModel::initial(
                        partitions_view(partitions@),
                        fields_of(&schema),
                        indices_of(projection),
                    )
                },
                Err(error) => {
                    &&& projection matches Some(indices)
                    &&& exists|at: int|
                        first_misfit(fields_of(&schema).len(), indices@, at) && error
                            == (SourceError::Schema {
                            index: #[trigger] indices[at],
                            fields: fields_of(&schema).len() as usize,
                        })
                },
            },
    {
        let projected_schema = match project_schema(&schema, projection.as_ref()) {
            Ok(projected_schema) => projected_schema,
            Err(_) => {
                let fields = field_count(&schema);
                let index = match &projection {
                    Some(indices) => match find_misfit(indices, fields) {
                        Some(at) => indices[at],
                        None => unreached(),
                    },
                    None => unreached(),
                };
                return Err(SourceError::Schema { index, fields });
            },
        };
        let held = clone_partitions(partitions);
        let sort_information: Vec<SortOrdering> = Vec::new();
        let cache = PlanProperties::new(
            EquivalenceProperties {
                schema: share_schema(&projected_schema),
                orderings: Vec::new(),
                constraints: Vec::new(),
            },
            Partitioning::UnknownPartitioning(partitions.len()),
            EmissionType::Incremental,
            Boundedness::Bounded,
        );
        proof {
            let model = SourceModel::initial(
                partitions_view(partitions@),
                fields_of(&schema),
                indices_of(projection),
            );
            assert(partitions_view(held@) =~= model.partitions);
            assert(orderings_view(sort_information@) =~= model.sort_information);
            assert(cache@.orderings =~= model.cache.orderings);
            assert(cache@.constraints =~= model.cache.constraints);
        }
        Ok(
            Self {
                partitions: held,
                schema,
                projected_schema,
                projection,
                sort_information,
                show_sizes: true,
                fetch: None,
                cache,
            },
        )
    }

    /// Builds a shared source, as `try_new` does.
    pub fn try_new_exec(
        partitions: &[Vec<Batch>],
        schema: Arc<Schema>,
        projection: Option<Vec<usize>>,
    ) -> (r: Result<Arc<MockMemorySourceConfig>, SourceError>)
        ensures
            r is Ok <==> admits_opt(fields_of(&schema).len(), indices_of(projection)),
            match r {
                Ok(source) => {
                    &&& source.wf()
                    &&& source@ == SourceModel::initial(
                        partitions_view(partitions@),
                        fields_of(&schema),
                        indices_of(projection),
                    )
                },
                Err(error) => {
                    &&& projection matches Some(indices)
                    &&& exists|at: int|
                        first_misfit(fields_of(&schema).len(), indices@, at) && error
                            == (SourceError::Schema {
                            index: #[trigger] indices[at],
                            fields: fields_of(&schema).len() as usize,
                        })
                },
            },
    {
        match Self::try_new(partitions, schema, projection) {
            Ok(source) => {
                let mut source = source;
                let cache = source.compute_properties();
                source.cache = cache;
                Ok(Arc::new(source))
            },
            Err(error) => Err(error),
        }
    }

    /// A source of its own with what a shared source holds, its plan
    /// properties derived anew.
    pub fn new(source: Arc<MockMemorySourceConfig>) -> (r: MockMemorySourceConfig)
        ensures
            r.wf(),
            r@ == source@,
    {
        proof {
            use_type_invariant(&*source);
        }
        let cache = source.compute_properties();
        let r = MockMemorySourceConfig {
            partitions: clone_partitions(source.partitions.as_slice()),
            schema: share_schema(&source.schema),
            projected_schema: share_schema(&source.projected_schema),
            projection: clone_projection(&source.projection),
            sort_information: clone_orderings(&source.sort_information),
            show_sizes: source.show_sizes,
            fetch: source.fetch,
            cache,
        };
        assert(r@.partitions =~= source@.partitions);
        r
    }

    /// The source with another row limit. Any limit is taken, zero too: then
    /// a stream hands out nothing.
    pub fn with_limit(self, limit: Option<usize>) -> (r: Self)
        ensures
            r.wf(),
            r@ == (SourceModel { fetch: limit, ..self@ }),
    {
        proof {
            use_type_invariant(&self);
        }
        let mut source = self;
        source.fetch = limit;
        source
    }

    /// The partitions.
    pub fn partitions(&self) -> (r: &[Vec<Batch>])
        ensures
            partitions_view(r@) == self@.partitions,
    {
        self.partitions.as_slice()
    }

    /// The projection.
    pub fn projection(&self) -> (r: &Option<Vec<usize>>)
        ensures
            indices_of(*r) == self@.projection,
    {
        &self.projection
    }

    /// The declared orderings, over the projected schema.
    pub fn sort_information(&self) -> (r: &[SortOrdering])
        ensures
            orderings_view(r@) == self@.sort_information,
    {
        self.sort_information.as_slice()
    }

    /// The schema of the data before the projection.
    pub fn original_schema(&self) -> (r: Arc<Schema>)
        ensures
            fields_of(&r) == self@.base,
    {
        share_schema(&self.schema)
    }

    /// Declares the orderings that the rows are known to have, one or more
    /// that are equivalent, each stated over the base schema. Every column
    /// that they refer to must be a field of the base schema at that position
    /// and under that name: the first that is not, in reading order, fails
    /// the call, and nothing else does. Without a projection the orderings are kept as given. With
    /// one they are re-expressed over the projected schema by the
    /// equivalence algebra, which gets the substitution from base positions
    /// to projected ones. The plan properties are derived anew.
    pub fn try_with_sort_information(self, sort_information: Vec<SortOrdering>) -> (r: Result<
        Self,
        SourceError,
    >)
        ensures
            match r {
                Ok(source) => {
                    &&& all_named(self@.base, orderings_view(sort_information@))
                    &&& source.wf()
                    &&& source@ == self@.with_orderings(source@.sort_information)
                    &&& match self@.projection {
                        None => source@.sort_information == orderings_view(sort_information@),
                        Some(indices) => plain_orderings(source@.sort_information)
                            == projected_terms(
                            self@.base,
                            orderings_view(sort_information@),
                            indices,
                        ),
                    }
                },
                Err(SourceError::Validation { column }) => exists|i: int, k: int|
                    first_stray(self@.base, orderings_view(sort_information@), i, k)
                        && #[trigger] orderings_view(sort_information@)[i][k].column == column@,
                Err(_) => false,
            },
            r is Ok <==> all_named(self@.base, orderings_view(sort_information@)),
    {
        proof {
            use_type_invariant(&self);
        }
        let source = self;
        match find_stray(&source.schema, &sort_information) {
            Some((i, k)) => {
                let column = sort_information[i].inner[k].expr.clone();
                assert(orderings_view(sort_information@)[i as int][k as int].column == column@);
                return Err(SourceError::Validation { column });
            },
            None => {},
        }
        let kept = match &source.projection {
            Some(projection) => project_orderings(
                &source.schema,
                &source.projected_schema,
                &sort_information,
                projection,
            ),
            None => sort_information,
        };
        let cache = PlanProperties::new(
            orderings_over(&source.projected_schema, &kept),
            source.output_partitioning(),
            EmissionType::Incremental,
            Boundedness::Bounded,
        );
        assert(cache@.constraints =~= Seq::empty());
        Ok(
            Self {
                partitions: source.partitions,
                schema: source.schema,
                projected_schema: source.projected_schema,
                projection: source.projection,
                sort_information: kept,
                show_sizes: source.show_sizes,
                fetch: source.fetch,
                cache,
            },
        )
    }

    /// The statistics of the source: the rows of all batches of all
    /// partitions, and of the columns handed out the nulls and the bytes
    /// taken up. They are computed anew on every call. It fails with an index
    /// error exactly where a batch lacks one of the columns, and else where
    /// a total does not fit the machine's word.
    pub fn statistics(&self) -> (r: Result<Statistics, SourceError>)
        ensures
            takes_stock(
                reading(self@.partitions),
                looked_at(self@.base.len(), self@.projection),
                r,
            ),
            r matches Err(SourceError::Index { .. }) <==> !each_wide(
                self@.partitions,
                looked_at(self@.base.len(), self@.projection),
            ),
    {
        compute_record_batch_statistics(
            self.partitions.as_slice(),
            &self.schema,
            clone_projection(&self.projection),
        )
    }

    /// The name under which the source shows in a plan.
    pub fn name(&self) -> (r: &'static str)
        ensures
            r@ == "DataSourceExec"@,
    {
        "DataSourceExec"
    }

    /// The plan properties.
    pub fn properties(&self) -> (r: &PlanProperties)
        ensures
            r@ == self@.derived(),
    {
        proof {
            use_type_invariant(self);
        }
        &self.cache
    }

    /// The inputs of the source: none, it is a leaf.
    pub fn children(&self) -> (r: Vec<&MockMemorySourceConfig>)
        ensures
            r@.len() == 0,
    {
        Vec::new()
    }

    /// Opens a partition as a stream over its batches, with the source's
    /// projection and row limit. It fails where there is no such partition.
    pub fn execute(&self, partition: usize, context: Arc<TaskContext>) -> (r: Result<
        MockMemoryStream,
        SourceError,
    >)
        ensures
            match r {
                Ok(stream) => {
                    &&& partition < self@.partitions.len()
                    &&& stream.wf()
                    &&& stream@ == self@.opened(partition as int)
                },
                Err(error) => {
                    &&& partition >= self@.partitions.len()
                    &&& error == SourceError::Index {
                        index: partition,
                        len: self@.partitions.len() as usize,
                    }
                },
            },
    {
        self.open(partition, context)
    }

    /// The row limit, if there is one.
    pub fn fetch(&self) -> (r: Option<usize>)
        ensures
            r == self@.fetch,
    {
        self.fetch
    }

    /// Writes the source out for a plan display. Both formats give the same
    /// text.
    pub fn fmt_as(&self, t: DisplayFormatType) -> (r: String)
        ensures
            r@ == self@.rendered(),
    {
        let mut out = String::from_str("DataSourceExec: ");
        match t {
            DisplayFormatType::Default | DisplayFormatType::Verbose => {
                let mut partition_sizes: Vec<usize> = Vec::new();
                let mut p: usize = 0;
                while p < self.partitions.len()
                    invariant
                        p <= self.partitions.len(),
                        partition_sizes@ == self@.sizes().take(p as int),
                    decreases self.partitions.len() - p,
                {
                    partition_sizes.push(self.partitions[p].len());
                    assert(partition_sizes@ =~= self@.sizes().take(p + 1));
                    p += 1;
                }
                assert(partition_sizes@ =~= self@.sizes());
                let eq_properties = self.eq_properties();
                let constraints = &eq_properties.constraints;
                out.append("partitions=");
                push_decimal(&mut out, partition_sizes.len());
                if self.show_sizes {
                    out.append(", partition_sizes=");
                    push_listed(&mut out, &partition_sizes);
                }
                if let Some(limit) = self.fetch {
                    out.append(", fetch=");
                    push_decimal(&mut out, limit);
                }
                if self.sort_information.len() > 0 {
                    out.append(", output_ordering=");
                    push_ordering(&mut out, &self.sort_information[0]);
                }
                if constraints.len() > 0 {
                    out.append(", ");
                    push_constraints(&mut out, constraints);
                }
            },
        }
        assert(out@ =~= self@.rendered());
        out
    }
}

/// The display is the same on every call: it depends on nothing but what the
/// source holds, so two texts written of sources that hold the same are the
/// same, whatever the format asked for.
pub proof fn lemma_display_is_stable(
    first: MockMemorySourceConfig,
    second: MockMemorySourceConfig,
    one: String,
    other: String,
)
    requires
        first@ == second@,
        one@ == first@.rendered(),
        other@ == second@.rendered(),
    ensures
        one@ == other@,
{
}

/// The row limit is a budget that every stream has for itself. A stream
/// opened on a partition starts at the partition's first batch with the whole
/// limit of the source, whatever other streams of the source were opened or
/// have handed out: what it is depends on the source and the partition alone,
/// and opening one leaves the source as it is. So, where no call can fail,
/// it hands out the limit or all rows of its partition, whichever is less.
pub proof fn lemma_limit_is_per_stream(source: SourceModel, partition: int)
    requires
        0 <= partition < source.partitions.len(),
        source.opened(partition).clean_onward(),
    ensures
        source.opened(partition).index == 0,
        source.opened(partition).fetch == source.fetch,
        source.opened(partition).data == source.partitions[partition],
        rows_of(source.opened(partition).emitted()) == match source.fetch {
            None => rows_from(source.partitions[partition], 0),
            Some(limit) => least(limit as nat, rows_from(source.partitions[partition], 0)),
        },
{
    lemma_budget_caps_rows(source.opened(partition));
}

} // verus!
