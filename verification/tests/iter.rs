use listagg::agg::AggList;
use listagg::column::{Column, IntColumn};
use listagg::group_iter::{iterate_groups, AggState, ChunkedColumn};
use listagg::groups::GroupsType;
use listagg::list_column::ListColumn;

fn int_col(name: &str, vals: Vec<Option<i64>>) -> Column {
    Column::Int(IntColumn::from_options(String::from(name), &vals))
}

#[test]
fn literal_yields_one_item_per_group() {
    let lit = int_col("c", vec![Some(7)]);
    let groups = GroupsType::Idx(vec![vec![0], vec![0, 0], vec![]]);
    let mut it = iterate_groups(AggState::Literal(lit), &groups, true);
    assert_eq!(it.remaining_count(), 3);
    let mut seen = 0;
    while let Some(item) = it.next() {
        let c = item.expect("a literal item is never a null list");
        match c {
            Column::Int(ic) => {
                assert_eq!(ic.values, vec![7]);
                assert_eq!(ic.name, String::from("c"));
            },
            _ => panic!("expected a primitive item"),
        }
        seen += 1;
    }
    assert_eq!(seen, 3);
    assert_eq!(it.remaining_count(), 0);
}

#[test]
fn literal_drops_name_when_not_kept() {
    let lit = int_col("c", vec![Some(7)]);
    let groups = GroupsType::Slice(vec![(0, 1)]);
    let mut it = iterate_groups(AggState::Literal(lit), &groups, false);
    match it.next().unwrap().unwrap() {
        Column::Int(ic) => assert_eq!(ic.name, String::new()),
        _ => panic!("expected a primitive item"),
    }
}

#[test]
fn aggregated_scalar_slides_across_chunks() {
    let cc = ChunkedColumn {
        name: String::from("s"),
        chunks: vec![
            int_col("", vec![Some(1), Some(2)]),
            int_col("", vec![Some(3)]),
            int_col("", vec![None]),
        ],
    };
    let groups = GroupsType::Idx(vec![vec![0], vec![1], vec![2], vec![3]]);
    let mut it = iterate_groups(AggState::AggregatedScalar(cc), &groups, true);
    let mut got: Vec<(Vec<i64>, Option<Vec<bool>>)> = Vec::new();
    while let Some(item) = it.next() {
        match item.expect("a scalar item is never a null list") {
            Column::Int(ic) => got.push((ic.values, ic.validity)),
            _ => panic!("expected a primitive item"),
        }
    }
    assert_eq!(
        got,
        vec![
            (vec![1], None),
            (vec![2], None),
            (vec![3], None),
            (vec![0], Some(vec![false])),
        ]
    );
}

#[test]
fn aggregated_list_yields_group_views() {
    let src = int_col("v", vec![Some(1), Some(2), Some(3)]);
    let groups = GroupsType::Idx(vec![vec![0, 1], vec![2], vec![]]);
    let lc = src.agg_list(&groups);
    let mut it = iterate_groups(AggState::AggregatedList(lc), &groups, true);
    let first = it.next().unwrap().unwrap();
    match first {
        Column::Int(ic) => assert_eq!(ic.values, vec![1, 2]),
        _ => panic!("expected a primitive item"),
    }
    let second = it.next().unwrap().unwrap();
    match second {
        Column::Int(ic) => assert_eq!(ic.values, vec![3]),
        _ => panic!("expected a primitive item"),
    }
    let third = it.next().unwrap().expect("an empty list row is not a null row");
    match third {
        Column::Int(ic) => assert_eq!(ic.values, Vec::<i64>::new()),
        _ => panic!("expected a primitive item"),
    }
    assert!(it.next().is_none());
}

#[test]
fn null_list_row_yields_none_item() {
    let child = Column::Int(IntColumn {
        name: String::new(),
        values: vec![4, 5],
        validity: None,
    });
    let lc = ListColumn::from_parts(
        String::from("l"),
        vec![0, 2, 2],
        child,
        Some(vec![true, false]),
    );
    let groups = GroupsType::Slice(vec![(0, 2), (2, 0)]);
    let mut it = iterate_groups(AggState::AggregatedList(lc), &groups, true);
    assert!(it.next().unwrap().is_some());
    assert!(it.next().unwrap().is_none());
    assert!(it.next().is_none());
}

#[test]
fn not_aggregated_forces_grouping_first() {
    let src = int_col("v", vec![Some(10), Some(20), Some(30)]);
    let groups = GroupsType::Slice(vec![(1, 2), (0, 1)]);
    let mut it = iterate_groups(AggState::NotAggregated(src), &groups, true);
    match it.next().unwrap().unwrap() {
        Column::Int(ic) => {
            assert_eq!(ic.values, vec![20, 30]);
            assert_eq!(ic.name, String::from("v"));
        },
        _ => panic!("expected a primitive item"),
    }
    match it.next().unwrap().unwrap() {
        Column::Int(ic) => assert_eq!(ic.values, vec![10]),
        _ => panic!("expected a primitive item"),
    }
    assert!(it.next().is_none());
    assert!(it.next().is_none());
}

#[test]
fn iteration_is_forward_only_and_finite() {
    let lit = int_col("c", vec![Some(1)]);
    let groups = GroupsType::Idx(vec![vec![0]]);
    let mut it = iterate_groups(AggState::Literal(lit), &groups, false);
    assert!(it.next().is_some());
    assert!(it.next().is_none());
    assert!(it.next().is_none());
}

#[test]
fn aggregated_scalar_skips_exhausted_chunks() {
    let cc = ChunkedColumn {
        name: String::from("s"),
        chunks: vec![
            int_col("", vec![]),
            int_col("", vec![Some(9)]),
            int_col("", vec![]),
            int_col("", vec![Some(8)]),
        ],
    };
    let groups = GroupsType::Slice(vec![(0, 1), (1, 1)]);
    let mut it = iterate_groups(AggState::AggregatedScalar(cc), &groups, false);
    match it.next().unwrap().unwrap() {
        Column::Int(ic) => assert_eq!(ic.values, vec![9]),
        _ => panic!("expected a primitive item"),
    }
    match it.next().unwrap().unwrap() {
        Column::Int(ic) => assert_eq!(ic.values, vec![8]),
        _ => panic!("expected a primitive item"),
    }
    assert!(it.next().is_none());
}

#[test]
fn literal_over_zero_groups_yields_nothing() {
    let lit = int_col("c", vec![Some(7)]);
    let groups = GroupsType::Idx(vec![]);
    let mut it = iterate_groups(AggState::Literal(lit), &groups, true);
    assert_eq!(it.remaining_count(), 0);
    assert!(it.next().is_none());
}
