//! End-to-end decodes of an in-memory container snapshot shaped like a full
//! annotated-matrix file: one hundred observations, twenty variables.
use anndata_parse::anndata::{ObsInAnnData, VarInAnnData};
use anndata_parse::brute_force::{
    AnnDataCompressed, BatchInCompressed, Count, LayersInCompressed, LibraryInCompressed,
    ObsInCompressed, VarInCompressed,
};
use anndata_parse::container::{DatasetBuffer, DatasetNode, GroupNode, NamedGroup};

fn dataset(name: &str, buffer: DatasetBuffer) -> DatasetNode {
    DatasetNode { name: name.to_string(), buffer }
}

fn categorical(labels: &[&str], codes: &[u64]) -> GroupNode {
    GroupNode {
        datasets: vec![
            dataset(
                "categories",
                DatasetBuffer::Strings(labels.iter().map(|s| s.to_string()).collect()),
            ),
            dataset("codes", DatasetBuffer::UInts(codes.to_vec())),
        ],
        groups: vec![],
    }
}

fn string_column(n: usize, prefix: &str) -> Vec<String> {
    (0..n).map(|i| format!("{prefix}{i}")).collect()
}

fn obs_group(n_obs: usize) -> GroupNode {
    let codes: Vec<u64> = (0..n_obs as u64).map(|i| i % 2).collect();
    GroupNode {
        datasets: vec![dataset("_index", DatasetBuffer::Strings(string_column(n_obs, "cell")))],
        groups: vec![
            NamedGroup {
                name: "batch".to_string(),
                group: categorical(&["batch1", "batch2"], &codes),
            },
            NamedGroup {
                name: "library".to_string(),
                group: categorical(&["libA", "libB"], &codes),
            },
        ],
    }
}

fn var_group(n_vars: usize) -> GroupNode {
    GroupNode {
        datasets: vec![
            dataset("_index", DatasetBuffer::Strings(string_column(n_vars, "gene"))),
            dataset("genes", DatasetBuffer::Strings(string_column(n_vars, "ENSG"))),
            dataset("is_hvg", DatasetBuffer::Bools((0..n_vars).map(|i| i % 3 == 0).collect())),
        ],
        groups: vec![],
    }
}

fn x_group(n_obs: usize, n_vars: usize) -> GroupNode {
    let data: Vec<u32> = (0..n_obs).map(|i| ((i + 1) as f32).to_bits()).collect();
    let indices: Vec<u64> = (0..n_obs as u64).map(|i| i % n_vars as u64).collect();
    let indptr: Vec<u64> = (0..=n_obs as u64).collect();
    GroupNode {
        datasets: vec![
            dataset("data", DatasetBuffer::Numerics(data)),
            dataset("indices", DatasetBuffer::UInts(indices)),
            dataset("indptr", DatasetBuffer::UInts(indptr)),
        ],
        groups: vec![],
    }
}

fn sample_root() -> GroupNode {
    GroupNode {
        datasets: vec![],
        groups: vec![
            NamedGroup { name: "obs".to_string(), group: obs_group(100) },
            NamedGroup { name: "var".to_string(), group: var_group(20) },
            NamedGroup {
                name: "layers".to_string(),
                group: GroupNode { datasets: vec![], groups: vec![] },
            },
            NamedGroup { name: "X".to_string(), group: x_group(100, 20) },
        ],
    }
}

#[test]
fn test_parse() {
    let contents = sample_root();
    assert!(AnnDataCompressed::parse(&contents).is_ok());
}

#[test]
fn test_parse_content() {
    let contents = sample_root();
    let (n_obs, n_vars) = (100, 20);
    assert!(Count::parse(contents.group("X").unwrap(), n_obs, n_vars).is_ok());
}

#[test]
fn test_parse_enum() {
    let contents = sample_root();
    let group = contents.group("obs").unwrap().group("library").unwrap();
    assert!(LibraryInCompressed::parse(group).is_ok());
    let group = contents.group("obs").unwrap().group("batch").unwrap();
    assert!(BatchInCompressed::parse(group).is_ok());
}

#[test]
fn test_parse_obs() {
    let contents = sample_root();
    let group = contents.group("obs").unwrap();
    assert!(ObsInCompressed::parse(group).is_ok());
}

#[test]
fn test_parse_var() {
    let contents = sample_root();
    let group = contents.group("var").unwrap();
    assert!(VarInCompressed::parse(group).is_ok());
}

#[test]
fn test_parse_layer() {
    let contents = sample_root();
    let group = contents.group("layers").unwrap();
    assert!(LayersInCompressed::parse(group).is_ok());
}

#[test]
fn parse_dimensions_match_tables() {
    let contents = sample_root();
    let adata = AnnDataCompressed::parse(&contents).unwrap();
    assert_eq!(adata.obs.len(), 100);
    assert_eq!(adata.var.len(), 20);
    assert_eq!(adata.x.n_obs(), adata.obs.len());
    assert_eq!(adata.x.n_vars(), adata.var.len());
    assert!(!ObsInAnnData::is_empty(&adata.obs));
    assert!(!VarInAnnData::is_empty(&adata.var));
}

#[test]
fn parse_fills_columns() {
    let contents = sample_root();
    let adata = AnnDataCompressed::parse(&contents).unwrap();
    assert_eq!(adata.obs.batch.len(), 100);
    assert_eq!(adata.obs.library.len(), 100);
    assert_eq!(adata.obs.index[0], "cell0");
    assert_eq!(adata.var.genes[19], "ENSG19");
    assert!(adata.var.is_hvg[0]);
    assert!(!adata.var.is_hvg[1]);
    assert_eq!(adata.x.value_bits(0, 0), 1.0f32.to_bits());
    assert_eq!(adata.x.value_bits(99, 19), 100.0f32.to_bits());
    assert_eq!(adata.x.value_bits(0, 1), 0);
}

#[test]
fn missing_obsm_block_is_absent() {
    let contents = sample_root();
    let adata = AnnDataCompressed::parse(&contents).unwrap();
    assert!(adata.obsm.is_none());
    assert!(adata.varm.is_none());
    assert!(adata.obsp.is_none());
    assert!(adata.varmp.is_none());
    assert!(adata.layers.is_some());
}

#[test]
fn missing_obs_group_fails_whole_parse() {
    let mut contents = sample_root();
    contents.groups.retain(|g| g.name != "obs");
    let r = AnnDataCompressed::parse(&contents);
    match r {
        Err(anndata_parse::error::ParseError::ContainerAccessFailure(name)) => {
            assert_eq!(name, "obs");
        },
        _ => panic!("expected a container access failure"),
    }
}

#[test]
fn missing_x_group_fails_whole_parse() {
    let mut contents = sample_root();
    contents.groups.retain(|g| g.name != "X");
    let r = AnnDataCompressed::parse(&contents);
    match r {
        Err(anndata_parse::error::ParseError::ContainerAccessFailure(name)) => {
            assert_eq!(name, "X");
        },
        _ => panic!("expected a container access failure"),
    }
}

#[test]
fn mismatched_column_lengths_fail() {
    let mut group = var_group(3);
    group.datasets.retain(|d| d.name != "genes");
    group
        .datasets
        .push(dataset("genes", DatasetBuffer::Strings(string_column(2, "ENSG"))));
    assert!(matches!(
        VarInCompressed::parse(&group),
        Err(anndata_parse::error::ParseError::Other(_))
    ));
}

#[test]
fn first_dataset_of_a_name_wins() {
    let mut group = var_group(3);
    group.datasets.push(dataset("_index", DatasetBuffer::Strings(vec![])));
    let decoded = VarInCompressed::parse(&group).unwrap();
    assert_eq!(decoded.len(), 3);
    assert_eq!(decoded.index[2], "gene2");
}
