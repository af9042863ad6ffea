use std::sync::Arc;

use arrow::compute::SortOptions as ArrowSortOptions;
use arrow::datatypes::{DataType, Field, Schema};
use datafusion_common::ScalarValue;
use datafusion_physical_expr::expressions::{Column as EngineColumn, Literal};
use datafusion_physical_expr::{LexOrdering, PhysicalSortExpr};
use memory_source::projection::find_misfit;
use memory_source::sort::{
    clone_orderings, column_fits, find_stray, physical_orderings, project_orderings,
    projection_exprs, read_orderings, Column, SortExpr, SortOptions, SortOrdering,
};

fn schema() -> Arc<Schema> {
    Arc::new(Schema::new(vec![
        Field::new("a", DataType::Int32, false),
        Field::new("b", DataType::Utf8, true),
        Field::new("c", DataType::Int64, false),
    ]))
}

fn term(name: &str, index: usize, descending: bool, nulls_first: bool) -> SortExpr {
    SortExpr::new(Column::new(name, index), SortOptions { descending, nulls_first })
}

fn engine_term(name: &str, index: usize, descending: bool, nulls_first: bool) -> PhysicalSortExpr {
    PhysicalSortExpr::new(
        Arc::new(EngineColumn::new(name, index)),
        ArrowSortOptions::new(descending, nulls_first),
    )
}

#[test]
fn a_column_fits_by_position_and_name() {
    let schema = schema();
    assert!(column_fits(&schema, &Column::new("a", 0)));
    assert!(column_fits(&schema, &Column::new("c", 2)));
    assert!(!column_fits(&schema, &Column::new("a", 1)));
    assert!(!column_fits(&schema, &Column::new("A", 0)));
    assert!(!column_fits(&schema, &Column::new("c", 3)));
    assert!(!column_fits(&schema, &Column::new("", usize::MAX)));
}

#[test]
fn the_first_stray_term_is_found_in_reading_order() {
    let schema = schema();
    let fine = vec![
        SortOrdering::new(vec![term("a", 0, false, false), term("b", 1, false, false)]),
        SortOrdering::new(vec![]),
        SortOrdering::new(vec![term("c", 2, true, true)]),
    ];
    assert_eq!(find_stray(&schema, &fine), None);
    assert_eq!(find_stray(&schema, &vec![]), None);
    let stray = vec![
        SortOrdering::new(vec![term("a", 0, false, false)]),
        SortOrdering::new(vec![
            term("b", 1, false, false),
            term("b", 2, false, false),
            term("z", 0, false, false),
        ]),
        SortOrdering::new(vec![term("q", 7, false, false)]),
    ];
    assert_eq!(find_stray(&schema, &stray), Some((1, 1)));
}

#[test]
fn the_first_index_out_of_range_is_found() {
    assert_eq!(find_misfit(&vec![], 0), None);
    assert_eq!(find_misfit(&vec![0, 1, 2], 3), None);
    assert_eq!(find_misfit(&vec![0, 3, 1, 9], 3), Some(1));
    assert_eq!(find_misfit(&vec![0], 0), Some(0));
}

#[test]
fn a_projection_stands_for_a_substitution() {
    let exprs = projection_exprs(&schema(), &vec![2, 0, 2]);
    assert_eq!(
        exprs,
        vec![
            (Column::new("c", 2), "c".to_string()),
            (Column::new("a", 0), "a".to_string()),
            (Column::new("c", 2), "c".to_string()),
        ]
    );
    assert!(projection_exprs(&schema(), &vec![]).is_empty());
}

#[test]
fn orderings_go_to_the_engine_term_for_term() {
    let given = vec![
        SortOrdering::new(vec![term("a", 0, false, true), term("c", 2, true, false)]),
        SortOrdering::new(vec![]),
    ];
    let expected = vec![
        LexOrdering::new(vec![engine_term("a", 0, false, true), engine_term("c", 2, true, false)]),
        LexOrdering::new(vec![]),
    ];
    assert_eq!(physical_orderings(&given), expected);
}

#[test]
fn orderings_come_back_from_the_engine_term_for_term() {
    let kept = vec![
        LexOrdering::new(vec![engine_term("c", 0, true, true)]),
        LexOrdering::new(vec![engine_term("a", 1, false, false), engine_term("c", 0, false, true)]),
    ];
    let expected = vec![
        SortOrdering::new(vec![term("c", 0, true, true)]),
        SortOrdering::new(vec![term("a", 1, false, false), term("c", 0, false, true)]),
    ];
    assert_eq!(read_orderings(&kept), Some(expected));
    assert_eq!(read_orderings(&vec![]), Some(vec![]));
}

#[test]
fn an_ordering_by_another_expression_does_not_come_back() {
    let literal = PhysicalSortExpr::new(
        Arc::new(Literal::new(ScalarValue::Int32(Some(1)))),
        ArrowSortOptions::new(false, false),
    );
    let kept = vec![
        LexOrdering::new(vec![engine_term("a", 0, false, false)]),
        LexOrdering::new(vec![engine_term("c", 2, false, false), literal]),
    ];
    assert_eq!(read_orderings(&kept), None);
}

#[test]
fn orderings_are_projected_by_the_engine() {
    let base = schema();
    let projected = Arc::new(base.project(&[2, 0]).unwrap());
    let given = vec![SortOrdering::new(vec![
        term("c", 2, false, true),
        term("a", 0, true, false),
        term("b", 1, true, false),
    ])];
    let kept = project_orderings(&base, &projected, &given, &vec![2, 0]);
    assert_eq!(
        kept,
        vec![SortOrdering::new(vec![term("c", 0, false, true), term("a", 1, true, false)])]
    );
    let same = project_orderings(&base, &base, &given, &vec![0, 1, 2]);
    assert_eq!(
        same,
        vec![SortOrdering::new(vec![
            term("c", 2, false, true),
            term("a", 0, true, false),
            term("b", 1, true, false),
        ])]
    );
}

#[test]
fn a_copy_of_orderings_holds_the_same() {
    let given = vec![
        SortOrdering::new(vec![term("a", 0, false, true)]),
        SortOrdering::new(vec![]),
    ];
    assert_eq!(clone_orderings(&given), given);
}
