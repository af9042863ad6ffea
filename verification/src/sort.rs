//! Sort orderings over columns, and how they are checked against a schema,
//! written out, and re-expressed under a projection.

use crate::projection::admits;
use crate::schema::{field_count, field_name, fields_of, schema_fields, FieldModel};
use crate::text::{decimal, push_decimal};
use arrow::datatypes::Schema;
use datafusion_common::DataFusionError;
use datafusion_physical_expr::equivalence::ProjectionMapping;
use datafusion_physical_expr::EquivalenceProperties;
use std::sync::Arc;
use vstd::prelude::*;

verus! {

/// A reference to a column of a schema, by name and position.
#[derive(Debug, PartialEq, Eq)]
pub struct Column {
    pub name: String,
    pub index: usize,
}

/// What a column reference says.
pub struct ColumnModel {
    pub name: Seq<char>,
    pub index: nat,
}

impl View for Column {
    type V = ColumnModel;

    open spec fn view(&self) -> ColumnModel {
        ColumnModel { name: self.name@, index: self.index as nat }
    }
}

impl Clone for Column {
    fn clone(&self) -> (r: Self)
        ensures
            r == *self,
    {
        Column { name: self.name.clone(), index: self.index }
    }
}

impl Column {
    /// A reference to the column `name` at position `index`.
    pub fn new(name: &str, index: usize) -> (r: Self)
        ensures
            r@ == (ColumnModel { name: name@, index: index as nat }),
    {
        Column { name: name.to_owned(), index }
    }

    /// The column's name.
    pub fn name(&self) -> (r: &str)
        ensures
            r@ == self@.name,
    {
        self.name.as_str()
    }

    /// The column's position.
    pub fn index(&self) -> (r: usize)
        ensures
            r == self@.index,
    {
        self.index
    }
}

/// The direction of a sort and where its nulls go.
#[derive(Clone, Copy, Debug, PartialEq, Eq)]
pub struct SortOptions {
    pub descending: bool,
    pub nulls_first: bool,
}

/// One term of an ordering: a column with its sort options.
#[derive(Debug, PartialEq, Eq)]
pub struct SortExpr {
    pub expr: Column,
    pub options: SortOptions,
}

/// What one term of an ordering says.
pub struct SortExprModel {
    pub column: ColumnModel,
    pub descending: bool,
    pub nulls_first: bool,
}

impl View for SortExpr {
    type V = SortExprModel;

    open spec fn view(&self) -> SortExprModel {
        SortExprModel {
            column: self.expr@,
            descending: self.options.descending,
            nulls_first: self.options.nulls_first,
        }
    }
}

impl Clone for SortExpr {
    fn clone(&self) -> (r: Self)
        ensures
            r == *self,
    {
        SortExpr { expr: self.expr.clone(), options: self.options }
    }
}

impl SortExpr {
    /// The term that sorts by `expr` with `options`.
    pub fn new(expr: Column, options: SortOptions) -> (r: Self)
        ensures
            r.expr == expr,
            r.options == options,
    {
        SortExpr { expr, options }
    }
}

/// A lexicographic ordering: sort by the first term, break ties by the
/// second, and so on.
#[derive(Debug, PartialEq, Eq)]
pub struct SortOrdering {
    pub inner: Vec<SortExpr>,
}

impl View for SortOrdering {
    type V = Seq<SortExprModel>;

    open spec fn view(&self) -> Seq<SortExprModel> {
        Seq::new(self.inner@.len(), |k: int| self.inner@[k]@)
    }
}

impl Clone for SortOrdering {
    fn clone(&self) -> (r: Self)
        ensures
            r@ == self@,
    {
        let inner = self.inner.clone();
        assert(inner@ =~= self.inner@);
        SortOrdering { inner }
    }
}

impl SortOrdering {
    /// The ordering with the terms of `inner`.
    pub fn new(inner: Vec<SortExpr>) -> (r: Self)
        ensures
            r.inner == inner,
    {
        SortOrdering { inner }
    }
}

/// What a list of orderings says.
pub open spec fn orderings_view(orderings: Seq<SortOrdering>) -> Seq<Seq<SortExprModel>> {
    Seq::new(orderings.len(), |i: int| orderings[i]@)
}

/// Copies a list of orderings.
pub fn clone_orderings(orderings: &Vec<SortOrdering>) -> (r: Vec<SortOrdering>)
    ensures
        orderings_view(r@) == orderings_view(orderings@),
{
    let mut r: Vec<SortOrdering> = Vec::new();
    let mut i: usize = 0;
    while i < orderings.len()
        invariant
            i <= orderings.len(),
            r.len() == i,
            forall|k: int| 0 <= k < i ==> r[k]@ == orderings[k]@,
        decreases orderings.len() - i,
    {
        r.push(orderings[i].clone());
        i += 1;
    }
    assert(orderings_view(r@) =~= orderings_view(orderings@));
    r
}

/// Whether `column` names a field of `fields`, by position and by name.
pub open spec fn names_field(fields: Seq<FieldModel>, column: ColumnModel) -> bool {
    column.index < fields.len() && fields[column.index as int].name == column.name
}

/// Whether every column of `orderings` names a field of `fields`.
pub open spec fn all_named(fields: Seq<FieldModel>, orderings: Seq<Seq<SortExprModel>>) -> bool {
    forall|i: int, k: int|
        #![trigger orderings[i][k]]
        0 <= i < orderings.len() && 0 <= k < orderings[i].len() ==> names_field(
            fields,
            orderings[i][k].column,
        )
}

/// Whether term `k` of ordering `i` is the first, in reading order, whose
/// column names no field of `fields`.
pub open spec fn first_stray(
    fields: Seq<FieldModel>,
    orderings: Seq<Seq<SortExprModel>>,
    i: int,
    k: int,
) -> bool {
    &&& 0 <= i < orderings.len()
    &&& 0 <= k < orderings[i].len()
    &&& !names_field(fields, orderings[i][k].column)
    &&& forall|b: int| 0 <= b < k ==> names_field(fields, (#[trigger] orderings[i][b]).column)
    &&& forall|a: int, b: int|
        #![trigger orderings[a][b]]
        0 <= a < i && 0 <= b < orderings[a].len() ==> names_field(fields, orderings[a][b].column)
}

/// Tells whether `column` names a field of `schema`, by position and by name.
pub fn column_fits(schema: &Arc<Schema>, column: &Column) -> (r: bool)
    ensures
        r == names_field(fields_of(schema), column@),
{
    if column.index < field_count(schema) {
        let name = field_name(schema, column.index);
        name == column.name
    } else {
        false
    }
}

/// Finds the first term of `orderings`, in reading order, whose column names
/// no field of `schema`.
pub fn find_stray(schema: &Arc<Schema>, orderings: &Vec<SortOrdering>) -> (r: Option<(usize, usize)>)
    ensures
        r is None <==> all_named(fields_of(schema), orderings_view(orderings@)),
        r matches Some((i, k)) ==> first_stray(
            fields_of(schema),
            orderings_view(orderings@),
            i as int,
            k as int,
        ),
{
    let ghost fields = fields_of(schema);
    let ghost view = orderings_view(orderings@);
    let mut i: usize = 0;
    while i < orderings.len()
        invariant
            i <= orderings.len(),
            fields == fields_of(schema),
            view == orderings_view(orderings@),
            forall|a: int, b: int|
                #![trigger view[a][b]]
                0 <= a < i && 0 <= b < view[a].len() ==> names_field(fields, view[a][b].column),
        decreases orderings.len() - i,
    {
        let terms = &orderings[i].inner;
        let mut k: usize = 0;
        while k < terms.len()
            invariant
                i < orderings.len(),
                k <= terms.len(),
                terms == &orderings[i as int].inner,
                fields == fields_of(schema),
                view == orderings_view(orderings@),
                forall|b: int| 0 <= b < k ==> names_field(fields, (#[trigger] view[i as int][b]).column),
                forall|a: int, b: int|
                    #![trigger view[a][b]]
                    0 <= a < i && 0 <= b < view[a].len() ==> names_field(
                        fields,
                        view[a][b].column,
                    ),
            decreases terms.len() - k,
        {
            assert(view[i as int][k as int] == terms[k as int]@);
            if !column_fits(schema, &terms[k].expr) {
                return Some((i, k));
            }
            k += 1;
        }
        i += 1;
    }
    None
}

/// How a term's sort options are written.
pub open spec fn options_text(descending: bool, nulls_first: bool) -> Seq<char> {
    if descending {
        if nulls_first {
            "DESC"@
        } else {
            "DESC NULLS LAST"@
        }
    } else {
        if nulls_first {
            "ASC"@
        } else {
            "ASC NULLS LAST"@
        }
    }
}

/// How a term is written: name, `@`, position, a space, the options.
pub open spec fn term_text(term: SortExprModel) -> Seq<char> {
    term.column.name + seq!['@'] + decimal(term.column.index) + seq![' '] + options_text(
        term.descending,
        term.nulls_first,
    )
}

/// How an ordering is written: its terms, separated by a comma and a space.
pub open spec fn ordering_text(terms: Seq<SortExprModel>) -> Seq<char>
    decreases terms.len(),
{
    if terms.len() == 0 {
        Seq::empty()
    } else if terms.len() == 1 {
        term_text(terms[0])
    } else {
        ordering_text(terms.drop_last()) + seq![',', ' '] + term_text(terms.last())
    }
}

/// Appends a term to `out`.
pub fn push_term(out: &mut String, term: &SortExpr)
    ensures
        final(out)@ == old(out)@ + term_text(term@),
{
    proof {
        reveal_strlit("@");
        reveal_strlit(" ");
    }
    out.append(term.expr.name.as_str());
    out.append("@");
    push_decimal(out, term.expr.index);
    out.append(" ");
    let options = if term.options.descending {
        if term.options.nulls_first {
            "DESC"
        } else {
            "DESC NULLS LAST"
        }
    } else {
        if term.options.nulls_first {
            "ASC"
        } else {
            "ASC NULLS LAST"
        }
    };
    out.append(options);
    assert(out@ =~= old(out)@ + term_text(term@));
}

/// Appends an ordering to `out`.
pub fn push_ordering(out: &mut String, ordering: &SortOrdering)
    ensures
        final(out)@ == old(out)@ + ordering_text(ordering@),
{
    let mut k: usize = 0;
    while k < ordering.inner.len()
        invariant
            k <= ordering.inner.len(),
            out@ == old(out)@ + ordering_text(ordering@.take(k as int)),
        decreases ordering.inner.len() - k,
    {
        if k > 0 {
            proof {
                reveal_strlit(", ");
            }
            out.append(", ");
        }
        push_term(out, &ordering.inner[k]);
        proof {
            let before = ordering@.take(k as int);
            let after = ordering@.take(k + 1);
            assert(after.drop_last() =~= before);
            assert(after.last() == ordering.inner[k as int]@);
            assert(out@ =~= old(out)@ + ordering_text(after));
        }
        k += 1;
    }
    assert(ordering@.take(ordering.inner.len() as int) =~= ordering@);
}

/// The substitution that a projection stands for: at each projected position
/// the base column it comes from, and the name it goes by there.
pub open spec fn substitution(fields: Seq<FieldModel>, projection: Seq<usize>) -> Seq<
    (ColumnModel, Seq<char>),
> {
    Seq::new(
        projection.len(),
        |j: int|
            (
                ColumnModel {
                    name: fields[projection[j] as int].name,
                    index: projection[j] as nat,
                },
                fields[projection[j] as int].name,
            ),
    )
}

/// What a list of projected expressions says.
pub open spec fn exprs_view(exprs: Seq<(Column, String)>) -> Seq<(ColumnModel, Seq<char>)> {
    Seq::new(exprs.len(), |j: int| (exprs[j].0@, exprs[j].1@))
}

/// Builds the substitution of a projection: for each projected position, the
/// base column behind it and the name of the projected column.
pub fn projection_exprs(schema: &Arc<Schema>, projection: &Vec<usize>) -> (r: Vec<(Column, String)>)
    requires
        admits(fields_of(schema).len(), projection@),
    ensures
        exprs_view(r@) == substitution(fields_of(schema), projection@),
{
    let mut r: Vec<(Column, String)> = Vec::new();
    let mut j: usize = 0;
    while j < projection.len()
        invariant
            j <= projection.len(),
            r.len() == j,
            admits(fields_of(schema).len(), projection@),
            forall|a: int|
                0 <= a < j ==> (#[trigger] r[a]).0@ == (ColumnModel {
                    name: fields_of(schema)[projection[a] as int].name,
                    index: projection[a] as nat,
                }) && r[a].1@ == fields_of(schema)[projection[a] as int].name,
        decreases projection.len() - j,
    {
        let name = field_name(schema, projection[j]);
        let column = Column { name: name.clone(), index: projection[j] };
        r.push((column, name));
        j += 1;
    }
    assert(exprs_view(r@) =~= substitution(fields_of(schema), projection@));
    r
}

/// The substitution keeps every column that the projection keeps: where the
/// projection holds a base column at position `j`, pair `j` of the mapping
/// handed to the equivalence algebra leads from that column to the column at
/// position `j` under the same name. What the algebra makes of an ordering
/// over such columns is its own.
pub proof fn lemma_substitution_keeps_columns(
    fields: Seq<FieldModel>,
    projection: Seq<usize>,
    column: ColumnModel,
    j: int,
)
    requires
        names_field(fields, column),
        0 <= j < projection.len(),
        projection[j] == column.index,
    ensures
        plain_pairs(substitution(fields, projection)).len() == projection.len(),
        plain_pairs(substitution(fields, projection))[j] == (
            Some(column),
            Some(ColumnModel { name: column.name, index: j as nat }),
        ),
{
}

/// datafusion's `PhysicalSortExpr`. Verus sees nothing inside it.
#[verifier::external_type_specification]
#[verifier::external_body]
pub struct ExPhysicalSortExpr(datafusion_physical_expr::PhysicalSortExpr);

/// datafusion's `LexOrdering`. Verus sees nothing inside it.
#[verifier::external_type_specification]
#[verifier::external_body]
pub struct ExLexOrdering(datafusion_physical_expr::LexOrdering);

/// datafusion's `ProjectionMapping`. Verus sees nothing inside it.
#[verifier::external_type_specification]
#[verifier::external_body]
pub struct ExProjectionMapping(ProjectionMapping);

/// The terms of one of datafusion's orderings, in order: what a term says
/// where it sorts by a plain column, `None` where it sorts by any other
/// expression.
pub uninterp spec fn ordering_terms(ordering: datafusion_physical_expr::LexOrdering) -> Seq<
    Option<SortExprModel>,
>;

/// The pairs of one of datafusion's projection mappings, in order: the column
/// that a pair maps from and the column that it maps to, each `None` where it
/// is no plain column.
pub uninterp spec fn mapping_pairs(mapping: ProjectionMapping) -> Seq<
    (Option<ColumnModel>, Option<ColumnModel>),
>;

/// The orderings that datafusion's equivalence algebra keeps when orderings
/// over a schema of `fields`, all of plain columns, are projected through a
/// mapping of `pairs`, all of plain columns.
pub uninterp spec fn projected_orderings(
    fields: Seq<FieldModel>,
    orderings: Seq<Seq<Option<SortExprModel>>>,
    pairs: Seq<(Option<ColumnModel>, Option<ColumnModel>)>,
) -> Seq<Seq<Option<SortExprModel>>>;

/// The terms of an ordering of this crate, as terms of plain columns.
pub open spec fn plain_terms(terms: Seq<SortExprModel>) -> Seq<Option<SortExprModel>> {
    Seq::new(terms.len(), |k: int| Some(terms[k]))
}

/// Orderings of this crate, as orderings of plain columns.
pub open spec fn plain_orderings(orderings: Seq<Seq<SortExprModel>>) -> Seq<
    Seq<Option<SortExprModel>>,
> {
    Seq::new(orderings.len(), |i: int| plain_terms(orderings[i]))
}

/// A substitution as pairs of plain columns: the target of pair `j` is the
/// column at position `j` under the projected name.
pub open spec fn plain_pairs(exprs: Seq<(ColumnModel, Seq<char>)>) -> Seq<
    (Option<ColumnModel>, Option<ColumnModel>),
> {
    Seq::new(
        exprs.len(),
        |j: int| (Some(exprs[j].0), Some(ColumnModel { name: exprs[j].1, index: j as nat })),
    )
}

/// Whether every term of the orderings is one of a plain column.
pub open spec fn all_plain(orderings: Seq<Seq<Option<SortExprModel>>>) -> bool {
    forall|i: int, k: int|
        #![trigger orderings[i][k]]
        0 <= i < orderings.len() && 0 <= k < orderings[i].len() ==> orderings[i][k] is Some
}

/// What a list of datafusion's orderings holds.
pub open spec fn terms_view(orderings: Seq<datafusion_physical_expr::LexOrdering>) -> Seq<
    Seq<Option<SortExprModel>>,
> {
    Seq::new(orderings.len(), |i: int| ordering_terms(orderings[i]))
}

/// Makes one of datafusion's orderings with `PhysicalSortExpr::new` over
/// `Column::new` and arrow's `SortOptions::new`: term for term the same
/// column, direction and null placement.
#[verifier::external_body]
fn physical_ordering(ordering: &SortOrdering) -> (r: datafusion_physical_expr::LexOrdering)
    ensures
        ordering_terms(r) == plain_terms(ordering@),
{
    let terms = ordering.inner.iter().map(|e| {
        datafusion_physical_expr::PhysicalSortExpr::new(
            Arc::new(datafusion_physical_expr::expressions::Column::new(&e.expr.name, e.expr.index)),
            arrow::compute::SortOptions::new(e.options.descending, e.options.nulls_first),
        )
    });
    terms.collect()
}

/// Reads one of datafusion's orderings back, with `downcast_ref` to `Column`
/// on each term's expression: there is a result exactly where every term
/// sorts by a plain column, and it holds those terms.
#[verifier::external_body]
fn library_ordering(ordering: &datafusion_physical_expr::LexOrdering) -> (r: Option<SortOrdering>)
    ensures
        r is Some <==> (forall|k: int|
            0 <= k < ordering_terms(*ordering).len() ==> (#[trigger] ordering_terms(
                *ordering,
            )[k]) is Some),
        r matches Some(read) ==> plain_terms(read@) == ordering_terms(*ordering),
{
    let terms = ordering.iter().map(|e| {
        let column = e.expr.as_any().downcast_ref::<datafusion_physical_expr::expressions::Column>();
        column.map(|c| SortExpr {
            expr: Column { name: c.name().to_string(), index: c.index() },
            options: SortOptions {
                descending: e.options.descending,
                nulls_first: e.options.nulls_first,
            },
        })
    });
    terms.collect::<Option<Vec<_>>>().map(|inner| SortOrdering { inner })
}

/// Calls `ProjectionMapping::try_new` on the substitution, each source made
/// with `Column::new`. It fails exactly where a source's name is not the name
/// of the schema's field at the source's position. The mapping's pair `j`
/// leads from source `j` to the column at position `j` under name `j`.
/// datafusion panics where a source's position is out of range.
#[verifier::external_body]
fn projection_mapping(exprs: &Vec<(Column, String)>, schema: &Arc<Schema>) -> (r: Result<
    ProjectionMapping,
    DataFusionError,
>)
    requires
        forall|j: int|
            0 <= j < exprs.len() ==> (#[trigger] exprs[j]).0.index < schema_fields(
                **schema,
            ).len(),
    ensures
        r is Ok <==> (forall|j: int|
            0 <= j < exprs.len() ==> names_field(
                schema_fields(**schema),
                (#[trigger] exprs[j]).0@,
            )),
        r matches Ok(mapping) ==> mapping_pairs(mapping) == plain_pairs(exprs_view(exprs@)),
{
    let pairs = exprs.iter().map(|(c, n)| {
        let source = datafusion_physical_expr::expressions::Column::new(&c.name, c.index);
        (Arc::new(source) as Arc<dyn datafusion_physical_expr::PhysicalExpr>, n.clone())
    });
    ProjectionMapping::try_new(&pairs.collect::<Vec<_>>(), schema)
}

/// Calls `EquivalenceProperties::new_with_orderings` on the base schema and
/// the given orderings, `project` with the mapping and the projected schema,
/// then `into_oeq_class` and `into_inner`: the orderings that the algebra
/// keeps. What it keeps is told by the base schema's fields, the terms of
/// the orderings and the pairs of the mapping, as long as all of them are
/// plain columns that the base schema holds; the projected schema only
/// rides along. Every term that it keeps sorts by a target of the mapping
/// (`project_expr` gives a plain column nothing else), so by a plain column.
#[verifier::external_body]
fn project_physical(
    base: &Arc<Schema>,
    projected: &Arc<Schema>,
    given: &Vec<datafusion_physical_expr::LexOrdering>,
    mapping: &ProjectionMapping,
) -> (r: Vec<datafusion_physical_expr::LexOrdering>)
    requires
        all_plain(terms_view(given@)),
        forall|i: int, k: int|
            #![trigger terms_view(given@)[i][k]]
            0 <= i < given.len() && 0 <= k < terms_view(given@)[i].len() ==> names_field(
                schema_fields(**base),
                terms_view(given@)[i][k]->Some_0.column,
            ),
        forall|j: int|
            0 <= j < mapping_pairs(*mapping).len() ==> {
                &&& (#[trigger] mapping_pairs(*mapping)[j]).0 is Some
                &&& mapping_pairs(*mapping)[j].1 is Some
                &&& names_field(schema_fields(**base), mapping_pairs(*mapping)[j].0->Some_0)
            },
    ensures
        terms_view(r@) == projected_orderings(
            schema_fields(**base),
            terms_view(given@),
            mapping_pairs(*mapping),
        ),
        all_plain(terms_view(r@)),
{
    EquivalenceProperties::new_with_orderings(Arc::clone(base), given)
        .project(mapping, Arc::clone(projected))
        .into_oeq_class()
        .into_inner()
}

/// The orderings that the equivalence algebra keeps of `orderings`, declared
/// over a schema of `fields`, under `projection`.
pub open spec fn projected_terms(
    fields: Seq<FieldModel>,
    orderings: Seq<Seq<SortExprModel>>,
    projection: Seq<usize>,
) -> Seq<Seq<Option<SortExprModel>>> {
    projected_orderings(
        fields,
        plain_orderings(orderings),
        plain_pairs(substitution(fields, projection)),
    )
}

/// Hands orderings to datafusion: one of its orderings for each, term for
/// term the same.
pub fn physical_orderings(orderings: &Vec<SortOrdering>) -> (r: Vec<
    datafusion_physical_expr::LexOrdering,
>)
    ensures
        terms_view(r@) == plain_orderings(orderings_view(orderings@)),
{
    let mut r: Vec<datafusion_physical_expr::LexOrdering> = Vec::new();
    let mut i: usize = 0;
    while i < orderings.len()
        invariant
            i <= orderings.len(),
            r.len() == i,
            forall|a: int|
                0 <= a < i ==> ordering_terms(#[trigger] r[a]) == plain_terms(orderings[a]@),
        decreases orderings.len() - i,
    {
        r.push(physical_ordering(&orderings[i]));
        i += 1;
    }
    assert(terms_view(r@) =~= plain_orderings(orderings_view(orderings@)));
    r
}

/// Takes orderings back from datafusion. There is a result exactly where
/// every term of every ordering sorts by a plain column, and it holds the
/// orderings term for term.
pub fn read_orderings(kept: &Vec<datafusion_physical_expr::LexOrdering>) -> (r: Option<
    Vec<SortOrdering>,
>)
    ensures
        r is Some <==> all_plain(terms_view(kept@)),
        r matches Some(read) ==> plain_orderings(orderings_view(read@)) == terms_view(kept@),
{
    let ghost terms = terms_view(kept@);
    let mut r: Vec<SortOrdering> = Vec::new();
    let mut i: usize = 0;
    while i < kept.len()
        invariant
            i <= kept.len(),
            r.len() == i,
            terms == terms_view(kept@),
            forall|a: int| 0 <= a < i ==> plain_terms(#[trigger] r[a]@) == terms[a],
        decreases kept.len() - i,
    {
        assert(terms[i as int] == ordering_terms(kept[i as int]));
        match library_ordering(&kept[i]) {
            Some(read) => {
                r.push(read);
            },
            None => {
                proof {
                    let held = ordering_terms(kept[i as int]);
                    let k = choose|k: int| 0 <= k < held.len() && !(held[k] is Some);
                    assert(!(terms[i as int][k] is Some));
                }
                return None;
            },
        }
        i += 1;
    }
    assert(plain_orderings(orderings_view(r@)) =~= terms);
    assert forall|a: int, k: int|
        #![trigger terms[a][k]]
        0 <= a < terms.len() && 0 <= k < terms[a].len() implies terms[a][k] is Some by {
        assert(terms[a] == plain_terms(r[a]@));
    }
    Some(r)
}

/// Re-expresses orderings declared over the base schema against the
/// projected schema. This crate supplies the substitution; datafusion's
/// equivalence algebra applies it and drops what becomes redundant. What it
/// keeps are orderings of plain columns again.
pub fn project_orderings(
    base: &Arc<Schema>,
    projected: &Arc<Schema>,
    orderings: &Vec<SortOrdering>,
    projection: &Vec<usize>,
) -> (r: Vec<SortOrdering>)
    requires
        admits(fields_of(base).len(), projection@),
        all_named(fields_of(base), orderings_view(orderings@)),
    ensures
        plain_orderings(orderings_view(r@)) == projected_terms(
            fields_of(base),
            orderings_view(orderings@),
            projection@,
        ),
{
    let ghost fields = fields_of(base);
    let ghost declared = orderings_view(orderings@);
    let exprs = projection_exprs(base, projection);
    assert(exprs_view(exprs@).len() == exprs.len());
    assert forall|j: int| 0 <= j < exprs.len() implies names_field(
        fields,
        (#[trigger] exprs[j]).0@,
    ) by {
        assert(exprs_view(exprs@)[j] == substitution(fields, projection@)[j]);
        assert(projection@[j] < fields.len());
    }
    let mapping = match projection_mapping(&exprs, base) {
        Ok(mapping) => mapping,
        Err(_) => unreached(),
    };
    let given = physical_orderings(orderings);
    assert forall|j: int| 0 <= j < mapping_pairs(mapping).len() implies {
        &&& (#[trigger] mapping_pairs(mapping)[j]).0 is Some
        &&& mapping_pairs(mapping)[j].1 is Some
        &&& names_field(fields, mapping_pairs(mapping)[j].0->Some_0)
    } by {
        assert(exprs_view(exprs@)[j] == substitution(fields, projection@)[j]);
        assert(projection@[j] < fields.len());
    }
    assert forall|a: int, k: int|
        #![trigger terms_view(given@)[a][k]]
        0 <= a < given.len() && 0 <= k < terms_view(given@)[a].len() implies names_field(
        fields,
        terms_view(given@)[a][k]->Some_0.column,
    ) by {
        assert(terms_view(given@).len() == given.len());
        assert(plain_orderings(declared).len() == declared.len());
        assert(terms_view(given@)[a] == plain_terms(declared[a]));
        assert(plain_terms(declared[a])[k] == Some(declared[a][k]));
    }
    let kept = project_physical(base, projected, &given, &mapping);
    match read_orderings(&kept) {
        Some(read) => read,
        None => unreached(),
    }
}

} // verus!
