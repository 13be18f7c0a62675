use listagg::agg::AggList;
use listagg::column::{
    BoolColumn, BytesColumn, Column, FieldColumn, IntColumn, NullColumn, ObjectColumn,
    StructColumn,
};
use listagg::groups::GroupsType;
use listagg::list_column::ListColumn;

fn int_col(name: &str, vals: Vec<Option<i64>>) -> IntColumn {
    IntColumn::from_options(String::from(name), &vals)
}

fn assert_list_eq(a: &ListColumn, b: &ListColumn) {
    assert_eq!(a.name, b.name);
    assert_eq!(a.offsets, b.offsets);
    assert_eq!(a.validity, b.validity);
    assert_eq!(a.fast_explode, b.fast_explode);
    match (&a.values, &b.values) {
        (Column::Int(x), Column::Int(y)) => {
            assert_eq!(x.values, y.values);
            assert_eq!(x.validity, y.validity);
        },
        (Column::Bool(x), Column::Bool(y)) => {
            assert_eq!(x.values, y.values);
            assert_eq!(x.validity, y.validity);
        },
        (Column::Bytes(x), Column::Bytes(y)) => {
            assert_eq!(x.values, y.values);
            assert_eq!(x.validity, y.validity);
        },
        (Column::Null(x), Column::Null(y)) => {
            assert_eq!(x.len, y.len);
        },
        (Column::Object(x), Column::Object(y)) => {
            assert_eq!(x.values, y.values);
            assert_eq!(x.validity, y.validity);
        },
        (Column::Struct(x), Column::Struct(y)) => {
            assert_eq!(x.length, y.length);
            assert_eq!(x.field_names, y.field_names);
            assert_eq!(x.fields.len(), y.fields.len());
            for (fx, fy) in x.fields.iter().zip(y.fields.iter()) {
                match (fx, fy) {
                    (FieldColumn::Int(a), FieldColumn::Int(b)) => {
                        assert_eq!(a.values, b.values);
                        assert_eq!(a.validity, b.validity);
                    },
                    (FieldColumn::Bool(a), FieldColumn::Bool(b)) => {
                        assert_eq!(a.values, b.values);
                        assert_eq!(a.validity, b.validity);
                    },
                    (FieldColumn::Bytes(a), FieldColumn::Bytes(b)) => {
                        assert_eq!(a.values, b.values);
                        assert_eq!(a.validity, b.validity);
                    },
                    _ => panic!("field kinds differ"),
                }
            }
        },
        _ => panic!("child columns differ in kind"),
    }
}

#[test]
fn int_idx_offsets_and_values() {
    let col = int_col("a", vec![Some(10), Some(20), Some(30), Some(40)]);
    let groups = GroupsType::Idx(vec![vec![0, 2], vec![1], vec![3, 3]]);
    let out = col.agg_list(&groups);
    assert_eq!(out.offsets, vec![0, 2, 3, 5]);
    assert_eq!(out.name, String::from("a"));
    assert!(out.fast_explode);
    assert!(out.validity.is_none());
    match &out.values {
        Column::Int(c) => {
            assert_eq!(c.values, vec![10, 30, 20, 40, 40]);
            assert!(c.validity.is_none());
        },
        _ => panic!("expected a primitive child"),
    }
}

#[test]
fn int_slice_bulk_copy() {
    let col = int_col("a", vec![Some(1), Some(2), Some(3), Some(4), Some(5)]);
    let groups = GroupsType::Slice(vec![(0, 2), (2, 3)]);
    let out = col.agg_list(&groups);
    assert_eq!(out.offsets, vec![0, 2, 5]);
    assert!(out.fast_explode);
    match &out.values {
        Column::Int(c) => assert_eq!(c.values, vec![1, 2, 3, 4, 5]),
        _ => panic!("expected a primitive child"),
    }
}

#[test]
fn empty_group_disables_fast_explode() {
    let col = int_col("a", vec![Some(1), Some(2)]);
    let groups = GroupsType::Idx(vec![vec![0], vec![], vec![1]]);
    let out = col.agg_list(&groups);
    assert!(!out.fast_explode);
    assert_eq!(out.offsets, vec![0, 1, 1, 2]);
    match &out.values {
        Column::Int(c) => assert_eq!(c.values, vec![1, 2]),
        _ => panic!("expected a primitive child"),
    }
}

#[test]
fn all_groups_nonempty_sets_fast_explode() {
    let col = int_col("a", vec![Some(1), Some(2)]);
    let groups = GroupsType::Slice(vec![(0, 1), (1, 1)]);
    let out = col.agg_list(&groups);
    assert!(out.fast_explode);
}

#[test]
fn zero_length_slice_group_disables_fast_explode() {
    let col = int_col("a", vec![Some(1), Some(2)]);
    let groups = GroupsType::Slice(vec![(0, 2), (1, 0)]);
    let out = col.agg_list(&groups);
    assert!(!out.fast_explode);
    assert_eq!(out.offsets, vec![0, 2, 2]);
}

#[test]
fn idx_and_slice_forms_byte_identical() {
    let vals = vec![Some(7), None, Some(9), Some(11)];
    let col = int_col("v", vals.clone());
    let idx_form = GroupsType::Idx(vec![vec![0, 1], vec![2, 3]]);
    let slice_form = GroupsType::Slice(vec![(0, 2), (2, 2)]);
    let a = col.agg_list(&idx_form);
    let b = col.agg_list(&slice_form);
    assert_list_eq(&a, &b);

    let bcol = BytesColumn::from_options(
        String::from("b"),
        &vec![Some(b"xy".to_vec()), Some(b"z".to_vec()), None, Some(vec![])],
    );
    let a = bcol.agg_list(&idx_form);
    let b = bcol.agg_list(&slice_form);
    assert_list_eq(&a, &b);

    let ocol = ObjectColumn::from_handles(
        String::from("o"),
        &vec![Some(100), Some(200), None, Some(400)],
    );
    let a = ocol.agg_list(&idx_form);
    let b = ocol.agg_list(&slice_form);
    assert_list_eq(&a, &b);

    let kcol = BoolColumn::from_options(
        String::from("k"),
        &vec![Some(true), None, Some(false), Some(true)],
    );
    let a = kcol.agg_list(&idx_form);
    let b = kcol.agg_list(&slice_form);
    assert_list_eq(&a, &b);

    let ncol = NullColumn::new(String::from("n"), 4);
    let a = ncol.agg_list(&idx_form);
    let b = ncol.agg_list(&slice_form);
    assert_list_eq(&a, &b);

    let scol = StructColumn {
        name: String::from("s"),
        length: 4,
        field_names: vec![String::from("a"), String::from("b")],
        fields: vec![
            FieldColumn::Int(int_col("a", vec![Some(1), None, Some(3), Some(4)])),
            FieldColumn::Bytes(BytesColumn::from_options(
                String::from("b"),
                &vec![Some(b"p".to_vec()), Some(b"q".to_vec()), None, Some(b"s".to_vec())],
            )),
        ],
    };
    let a = scol.agg_list(&idx_form);
    let b = scol.agg_list(&slice_form);
    assert_list_eq(&a, &b);
}

#[test]
fn no_nulls_means_no_validity_buffer() {
    let col = int_col("a", vec![Some(1), Some(2), Some(3)]);
    let out = col.agg_list(&GroupsType::Idx(vec![vec![0, 1], vec![2]]));
    match &out.values {
        Column::Int(c) => assert!(c.validity.is_none()),
        _ => panic!("expected a primitive child"),
    }
}

#[test]
fn validity_mirrors_source_nullness() {
    let col = int_col("a", vec![Some(1), None, Some(3)]);
    let out = col.agg_list(&GroupsType::Idx(vec![vec![1, 0], vec![2, 1]]));
    match &out.values {
        Column::Int(c) => {
            assert_eq!(c.values, vec![0, 1, 3, 0]);
            assert_eq!(c.validity, Some(vec![false, true, true, false]));
        },
        _ => panic!("expected a primitive child"),
    }
}

#[test]
fn validity_buffer_allocated_even_if_groups_skip_nulls() {
    let col = int_col("a", vec![Some(1), None, Some(3)]);
    let out = col.agg_list(&GroupsType::Idx(vec![vec![0], vec![2]]));
    match &out.values {
        Column::Int(c) => assert_eq!(c.validity, Some(vec![true, true])),
        _ => panic!("expected a primitive child"),
    }
}

#[test]
fn null_column_fast_path() {
    let col = NullColumn::new(String::from("n"), 5);
    let out = col.agg_list(&GroupsType::Slice(vec![(0, 3), (3, 2)]));
    assert_eq!(out.offsets, vec![0, 3, 5]);
    assert!(out.fast_explode);
    match &out.values {
        Column::Null(c) => assert_eq!(c.len, 5),
        _ => panic!("expected a typed-null child"),
    }
}

#[test]
fn object_handles_preserved_exactly() {
    let col = ObjectColumn::from_handles(
        String::from("o"),
        &vec![Some(0xdeadbeef), Some(42), None],
    );
    let out = col.agg_list(&GroupsType::Idx(vec![vec![2, 0], vec![1]]));
    assert_eq!(out.offsets, vec![0, 2, 3]);
    match &out.values {
        Column::Object(c) => {
            assert_eq!(c.values, vec![0, 0xdeadbeef, 42]);
            assert_eq!(c.validity, Some(vec![false, true, true]));
        },
        _ => panic!("expected an opaque child"),
    }
}

#[test]
fn bool_gather_and_wrap() {
    let col = BoolColumn::from_options(
        String::from("flags"),
        &vec![Some(true), Some(false), None, Some(true)],
    );
    let out = col.agg_list(&GroupsType::Idx(vec![vec![3, 1], vec![2]]));
    assert_eq!(out.offsets, vec![0, 2, 3]);
    match &out.values {
        Column::Bool(c) => {
            assert_eq!(c.values, vec![true, false, false]);
            assert_eq!(c.validity, Some(vec![true, true, false]));
        },
        _ => panic!("expected a boolean child"),
    }
}

#[test]
fn bytes_gather_and_wrap() {
    let col = BytesColumn::from_options(
        String::from("txt"),
        &vec![Some(b"ab".to_vec()), Some(b"cde".to_vec()), Some(vec![])],
    );
    let out = col.agg_list(&GroupsType::Idx(vec![vec![1], vec![0, 2]]));
    assert_eq!(out.offsets, vec![0, 1, 3]);
    match &out.values {
        Column::Bytes(c) => {
            assert_eq!(c.values, vec![b"cde".to_vec(), b"ab".to_vec(), vec![]]);
            assert!(c.validity.is_none());
        },
        _ => panic!("expected a variable-width child"),
    }
}

#[test]
fn tiled_slice_partition_avoids_gather() {
    let groups = GroupsType::Slice(vec![(0, 2), (2, 1)]);
    let (gather, offsets, cfe) = groups.prepare_list_agg(3);
    assert!(gather.is_none());
    assert_eq!(offsets, vec![0, 2, 3]);
    assert!(cfe);

    let non_tiled = GroupsType::Slice(vec![(1, 2), (0, 1)]);
    let (gather, offsets, _) = non_tiled.prepare_list_agg(3);
    assert_eq!(gather, Some(vec![1, 2, 0]));
    assert_eq!(offsets, vec![0, 2, 3]);
}

#[test]
fn bytes_tiled_slice_matches_source() {
    let col = BytesColumn::from_options(
        String::from("txt"),
        &vec![Some(b"a".to_vec()), None, Some(b"c".to_vec())],
    );
    let out = col.agg_list(&GroupsType::Slice(vec![(0, 1), (1, 2)]));
    assert_eq!(out.offsets, vec![0, 1, 3]);
    match &out.values {
        Column::Bytes(c) => {
            assert_eq!(c.values, vec![b"a".to_vec(), vec![], b"c".to_vec()]);
            assert_eq!(c.validity, Some(vec![true, false, true]));
        },
        _ => panic!("expected a variable-width child"),
    }
}

#[test]
fn struct_fields_stay_aligned() {
    let a = IntColumn::from_options(
        String::from("a"),
        &vec![Some(1), Some(2), Some(3)],
    );
    let b = BytesColumn::from_options(
        String::from("b"),
        &vec![Some(b"x".to_vec()), Some(b"y".to_vec()), Some(b"z".to_vec())],
    );
    let col = StructColumn {
        name: String::from("s"),
        length: 3,
        field_names: vec![String::from("a"), String::from("b")],
        fields: vec![FieldColumn::Int(a), FieldColumn::Bytes(b)],
    };
    let groups = GroupsType::Idx(vec![vec![0, 2], vec![1]]);
    let out = col.agg_list(&groups);
    assert_eq!(out.offsets, vec![0, 2, 3]);
    match &out.values {
        Column::Struct(s) => {
            assert_eq!(s.length, 3);
            assert_eq!(s.field_names, vec![String::from("a"), String::from("b")]);
            match (&s.fields[0], &s.fields[1]) {
                (FieldColumn::Int(fa), FieldColumn::Bytes(fb)) => {
                    assert_eq!(fa.values, vec![1, 3, 2]);
                    assert_eq!(
                        fb.values,
                        vec![b"x".to_vec(), b"z".to_vec(), b"y".to_vec()]
                    );
                },
                _ => panic!("field kinds changed"),
            }
        },
        _ => panic!("expected a struct child"),
    }
}

#[test]
fn round_trip_explode_recovers_groups() {
    let vals = vec![Some(5), Some(6), None, Some(8)];
    let col = int_col("v", vals);
    let sels: Vec<Vec<usize>> = vec![vec![3, 0], vec![], vec![2, 2, 1]];
    let out = col.agg_list(&GroupsType::Idx(sels.clone()));
    let child = match &out.values {
        Column::Int(c) => c,
        _ => panic!("expected a primitive child"),
    };
    for (i, sel) in sels.iter().enumerate() {
        let lo = out.offsets[i];
        let hi = out.offsets[i + 1];
        assert_eq!(hi - lo, sel.len());
        for (j, &src) in sel.iter().enumerate() {
            assert_eq!(child.values[lo + j], col.values[src]);
            let out_bit = child.validity.as_ref().map(|v| v[lo + j]).unwrap_or(true);
            let src_bit = col.validity.as_ref().map(|v| v[src]).unwrap_or(true);
            assert_eq!(out_bit, src_bit);
        }
    }
    assert_eq!(*out.offsets.last().unwrap(), child.values.len());
}

#[test]
fn column_dispatch_matches_direct_call() {
    let col = int_col("a", vec![Some(1), Some(2)]);
    let groups = GroupsType::Idx(vec![vec![1, 0]]);
    let via_enum = Column::Int(IntColumn::from_options(
        String::from("a"),
        &vec![Some(1), Some(2)],
    ))
    .agg_list(&groups);
    let direct = col.agg_list(&groups);
    assert_list_eq(&via_enum, &direct);
}

#[test]
fn from_parts_derives_fast_explode() {
    let child = Column::Int(IntColumn {
        name: String::new(),
        values: vec![1, 2, 3],
        validity: None,
    });
    let lc = ListColumn::from_parts(String::from("l"), vec![0, 2, 3], child, None);
    assert!(lc.fast_explode);

    let child = Column::Int(IntColumn {
        name: String::new(),
        values: vec![1, 2, 3],
        validity: None,
    });
    let lc = ListColumn::from_parts(String::from("l"), vec![0, 2, 2, 3], child, None);
    assert!(!lc.fast_explode);
}

#[test]
fn from_options_validity_allocation() {
    let c = IntColumn::from_options(String::from("x"), &vec![Some(1), Some(2)]);
    assert!(c.validity.is_none());
    let c = IntColumn::from_options(String::from("x"), &vec![Some(1), None]);
    assert_eq!(c.values, vec![1, 0]);
    assert_eq!(c.validity, Some(vec![true, false]));

    let c = BoolColumn::from_options(String::from("x"), &vec![None, Some(true)]);
    assert_eq!(c.values, vec![false, true]);
    assert_eq!(c.validity, Some(vec![false, true]));

    let c = BytesColumn::from_options(String::from("x"), &vec![Some(b"q".to_vec())]);
    assert!(c.validity.is_none());

    let c = ObjectColumn::from_handles(String::from("x"), &vec![Some(9)]);
    assert!(c.validity.is_none());
}

#[test]
fn zero_groups_gives_trivial_offsets() {
    let col = int_col("a", vec![Some(1)]);
    let out = col.agg_list(&GroupsType::Idx(vec![]));
    assert_eq!(out.offsets, vec![0]);
    assert!(out.fast_explode);
    match &out.values {
        Column::Int(c) => assert!(c.values.is_empty()),
        _ => panic!("expected a primitive child"),
    }
}
