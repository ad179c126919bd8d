//! Unit scenarios for the categorical and sparse decoders: exact decoded
//! values, boundary inputs, and every error kind.
use anndata_parse::brute_force::{BatchInCompressed, Count, LibraryInCompressed};
use anndata_parse::container::{DatasetBuffer, DatasetNode, GroupNode};
use anndata_parse::error::ParseError;

fn dataset(name: &str, buffer: DatasetBuffer) -> DatasetNode {
    DatasetNode { name: name.to_string(), buffer }
}

fn categorical(labels: &[&str], codes: &[u64]) -> GroupNode {
    GroupNode {
        datasets: vec![
            dataset(
                "categories",
                DatasetBuffer::Strings(labels.iter().map(|s| s.to_string()).collect()),
            ),
            dataset("codes", DatasetBuffer::UInts(codes.to_vec())),
        ],
        groups: vec![],
    }
}

fn csr(data: &[f32], indices: &[u64], indptr: &[u64]) -> GroupNode {
    GroupNode {
        datasets: vec![
            dataset("data", DatasetBuffer::Numerics(data.iter().map(|v| v.to_bits()).collect())),
            dataset("indices", DatasetBuffer::UInts(indices.to_vec())),
            dataset("indptr", DatasetBuffer::UInts(indptr.to_vec())),
        ],
        groups: vec![],
    }
}

#[test]
fn library_codes_decode_in_row_order() {
    let group = categorical(&["libA", "libB"], &[0, 1, 0]);
    let decoded = LibraryInCompressed::parse(&group).unwrap();
    assert_eq!(
        decoded,
        vec![
            LibraryInCompressed::libA,
            LibraryInCompressed::libB,
            LibraryInCompressed::libA,
        ]
    );
}

#[test]
fn batch_codes_decode_in_row_order() {
    let group = categorical(&["batch2", "batch1"], &[0, 0, 1]);
    let decoded = BatchInCompressed::parse(&group).unwrap();
    assert_eq!(
        decoded,
        vec![
            BatchInCompressed::batch2,
            BatchInCompressed::batch2,
            BatchInCompressed::batch1,
        ]
    );
}

#[test]
fn categorical_decode_is_idempotent() {
    let group = categorical(&["libB", "libA"], &[1, 0, 1, 1]);
    let first = LibraryInCompressed::parse(&group).unwrap();
    let second = LibraryInCompressed::parse(&group).unwrap();
    assert_eq!(first, second);
}

#[test]
fn unknown_label_fails_decode() {
    let group = categorical(&["libA", "libC"], &[0]);
    match LibraryInCompressed::parse(&group) {
        Err(ParseError::UnknownCategory(label)) => assert_eq!(label, "libC"),
        _ => panic!("expected an unknown category"),
    }
}

#[test]
fn code_one_past_last_category_fails() {
    let group = categorical(&["libA", "libB"], &[0, 2]);
    match LibraryInCompressed::parse(&group) {
        Err(ParseError::UnknownCode(code)) => assert_eq!(code, 2),
        _ => panic!("expected an unknown code"),
    }
}

#[test]
fn missing_codes_dataset_fails() {
    let mut group = categorical(&["libA"], &[]);
    group.datasets.retain(|d| d.name != "codes");
    match LibraryInCompressed::parse(&group) {
        Err(ParseError::ContainerAccessFailure(name)) => assert_eq!(name, "codes"),
        _ => panic!("expected a container access failure"),
    }
}

#[test]
fn mistyped_categories_dataset_fails() {
    let group = GroupNode {
        datasets: vec![
            dataset("categories", DatasetBuffer::UInts(vec![1, 2])),
            dataset("codes", DatasetBuffer::UInts(vec![0])),
        ],
        groups: vec![],
    };
    match LibraryInCompressed::parse(&group) {
        Err(ParseError::ContainerAccessFailure(name)) => assert_eq!(name, "categories"),
        _ => panic!("expected a container access failure"),
    }
}

#[test]
fn sparse_triple_decodes_to_dense_grid() {
    let group = csr(&[5.0, 9.0], &[2, 0], &[0, 1, 2]);
    let count = Count::parse(&group, 2, 3).unwrap();
    assert_eq!(count.n_obs(), 2);
    assert_eq!(count.n_vars(), 3);
    let expected = [[0.0f32, 0.0, 5.0], [9.0, 0.0, 0.0]];
    for (i, row) in expected.iter().enumerate() {
        for (j, want) in row.iter().enumerate() {
            assert_eq!(count.value_bits(i, j), want.to_bits());
        }
    }
}

#[test]
fn later_entry_wins_within_a_row() {
    let group = csr(&[1.5, 2.5], &[1, 1], &[0, 2]);
    let count = Count::parse(&group, 1, 2).unwrap();
    assert_eq!(count.value_bits(0, 1), 2.5f32.to_bits());
}

#[test]
fn empty_dimensions_yield_empty_matrix() {
    let group = csr(&[], &[], &[0]);
    let count = Count::parse(&group, 0, 5).unwrap();
    assert_eq!(count.n_obs(), 0);
    assert_eq!(count.n_vars(), 5);

    let group = csr(&[], &[], &[0, 0, 0]);
    let count = Count::parse(&group, 2, 0).unwrap();
    assert_eq!(count.n_obs(), 2);
    assert_eq!(count.n_vars(), 0);
}

#[test]
fn column_index_at_bound_fails() {
    let group = csr(&[1.0], &[3], &[0, 1]);
    match Count::parse(&group, 1, 3) {
        Err(ParseError::OutOfBoundsColumn(index, bound)) => {
            assert_eq!(index, 3);
            assert_eq!(bound, 3);
        },
        _ => panic!("expected an out-of-bounds column"),
    }
}

#[test]
fn value_and_index_runs_must_agree_in_length() {
    let group = csr(&[1.0, 2.0], &[0], &[0, 1]);
    assert!(matches!(Count::parse(&group, 1, 2), Err(ParseError::MalformedSparseLayout)));
}

#[test]
fn non_monotonic_row_pointers_fail() {
    let group = csr(&[1.0, 2.0], &[0, 1], &[2, 0, 2]);
    assert!(matches!(Count::parse(&group, 2, 2), Err(ParseError::MalformedSparseLayout)));
}

#[test]
fn too_few_row_pointers_fail() {
    let group = csr(&[1.0], &[0], &[0, 1]);
    assert!(matches!(Count::parse(&group, 2, 2), Err(ParseError::MalformedSparseLayout)));
}

#[test]
fn row_pointers_beyond_requested_rows_are_ignored() {
    let group = csr(&[4.0], &[0], &[0, 1, 100, 7]);
    let count = Count::parse(&group, 1, 2).unwrap();
    assert_eq!(count.value_bits(0, 0), 4.0f32.to_bits());
}

#[test]
fn it_works() {
    let result = anndata_parse::add(2, 2);
    assert_eq!(result, 4);
}
