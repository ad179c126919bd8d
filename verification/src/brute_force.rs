//! The concrete schema of one annotated-matrix dataset: two categorical
//! observation columns, string/boolean variable columns, placeholder
//! auxiliary blocks, and a dense count matrix decoded from a compressed
//! sparse row triple.
use vstd::prelude::*;

use crate::anndata::{
    AnnData, EnumInAnnData, LayersInAnnData, ObsInAnnData, ObsmInAnnData, ObspInAnnData,
    VarInAnnData, VarmInAnnData, VarmpInAnnData, XInAnnData,
};
use crate::categorical::{
    categorical_decoded, categorical_error, categorical_ok, first_unknown_code,
    first_unknown_label, labels_all_known,
};
use crate::container::{
    clone_bools, clone_strings, spec_bools, spec_find_group, spec_numerics, spec_strings,
    spec_uints, GroupNode,
};
use crate::error::ParseError;
use crate::sparse::{
    columns_ok, dense_decoded, first_bad_column, lemma_indptr_chain, lemma_layout_bounds,
    row_cell, sparse_layout_ok, used_slot,
};

verus! {

/// The sequencing library an observation came from.
#[derive(Debug, Clone, Copy, PartialEq, Eq, Structural)]
pub enum LibraryInCompressed {
    #[allow(non_camel_case_types)]
    libA,
    #[allow(non_camel_case_types)]
    libB,
}

/// The variant a `library` category label denotes, if any.
pub open spec fn library_of_label(label: Seq<char>) -> Option<LibraryInCompressed> {
    if label == "libA"@ {
        Some(LibraryInCompressed::libA)
    } else if label == "libB"@ {
        Some(LibraryInCompressed::libB)
    } else {
        None
    }
}

/// The `library` label table, as the spec-level function the categorical
/// decode contracts are stated over.
pub open spec fn library_labels() -> spec_fn(Seq<char>) -> Option<LibraryInCompressed> {
    |label: Seq<char>| library_of_label(label)
}

impl LibraryInCompressed {
    /// Decode the `categories`/`codes` pair of `group` against the closed
    /// label set {libA, libB}.
    #[verifier::loop_isolation(false)]
    pub fn parse(group: &GroupNode) -> (r: Result<Vec<LibraryInCompressed>, ParseError>)
        ensures
            r is Ok <==> categorical_ok(*group, library_labels()),
            r matches Ok(v) ==> categorical_decoded(*group, library_labels(), v@),
            r matches Err(e) ==> categorical_error(*group, library_labels(), e),
    {
        let cats = match group.strings("categories") {
            Ok(v) => v,
            Err(e) => { return Err(e) },
        };
        let la: String = "libA".to_owned();
        let lb: String = "libB".to_owned();
        let ghost cats_s: Seq<Seq<char>> = cats@.map_values(|s: String| s@);
        let mut table: Vec<LibraryInCompressed> = Vec::new();
        let mut i: usize = 0;
        while i < cats.len()
            invariant
                i <= cats@.len(),
                cats_s == cats@.map_values(|s: String| s@),
                cats_s.len() == cats@.len(),
                la@ == "libA"@,
                lb@ == "libB"@,
                table@.len() == i,
                forall|j: int|
                    0 <= j < i ==> (#[trigger] library_labels()(cats_s[j])) == Some(table@[j]),
            decreases cats@.len() - i,
        {
            let c = &cats[i];
            assert(cats_s[i as int] == c@);
            if *c == la {
                assert(library_labels()(cats_s[i as int]) == Some(LibraryInCompressed::libA));
                table.push(LibraryInCompressed::libA);
            } else if *c == lb {
                assert(library_labels()(cats_s[i as int]) == Some(LibraryInCompressed::libB));
                table.push(LibraryInCompressed::libB);
            } else {
                assert(library_labels()(cats_s[i as int]) is None);
                assert(!labels_all_known(cats_s, library_labels()));
                assert(first_unknown_label(cats_s, library_labels(), c@));
                return Err(ParseError::UnknownCategory(c.clone()));
            }
            i += 1;
        }
        assert(labels_all_known(cats_s, library_labels()));
        let codes = match group.uints("codes") {
            Ok(v) => v,
            Err(e) => { return Err(e) },
        };
        let mut out: Vec<LibraryInCompressed> = Vec::new();
        let mut k: usize = 0;
        while k < codes.len()
            invariant
                k <= codes@.len(),
                cats_s == cats@.map_values(|s: String| s@),
                cats_s.len() == cats@.len(),
                out@.len() == k,
                table@.len() == cats_s.len(),
                labels_all_known(cats_s, library_labels()),
                forall|j: int|
                    0 <= j < table@.len() ==> (#[trigger] library_labels()(cats_s[j])) == Some(
                        table@[j],
                    ),
                forall|t: int| 0 <= t < k ==> (#[trigger] codes@[t]) < table@.len(),
                forall|t: int|
                    0 <= t < k ==> (#[trigger] out@[t]) == library_labels()(
                        cats_s[codes@[t] as int],
                    ).unwrap(),
            decreases codes@.len() - k,
        {
            let code = codes[k];
            if code < table.len() as u64 {
                assert(library_labels()(cats_s[code as int]) == Some(table@[code as int]));
                out.push(table[code as usize]);
            } else {
                assert(first_unknown_code(cats_s.len() as int, codes@, code));
                return Err(ParseError::UnknownCode(code));
            }
            k += 1;
        }
        Ok(out)
    }
}

/// The experimental batch an observation belongs to.
#[derive(Debug, Clone, Copy, PartialEq, Eq, Structural)]
pub enum BatchInCompressed {
    #[allow(non_camel_case_types)]
    batch1,
    #[allow(non_camel_case_types)]
    batch2,
}

/// The variant a `batch` category label denotes, if any.
pub open spec fn batch_of_label(label: Seq<char>) -> Option<BatchInCompressed> {
    if label == "batch1"@ {
        Some(BatchInCompressed::batch1)
    } else if label == "batch2"@ {
        Some(BatchInCompressed::batch2)
    } else {
        None
    }
}

/// The `batch` label table, as the spec-level function the categorical
/// decode contracts are stated over.
pub open spec fn batch_labels() -> spec_fn(Seq<char>) -> Option<BatchInCompressed> {
    |label: Seq<char>| batch_of_label(label)
}

impl BatchInCompressed {
    /// Decode the `categories`/`codes` pair of `group` against the closed
    /// label set {batch1, batch2}.
    #[verifier::loop_isolation(false)]
    pub fn parse(group: &GroupNode) -> (r: Result<Vec<BatchInCompressed>, ParseError>)
        ensures
            r is Ok <==> categorical_ok(*group, batch_labels()),
            r matches Ok(v) ==> categorical_decoded(*group, batch_labels(), v@),
            r matches Err(e) ==> categorical_error(*group, batch_labels(), e),
    {
        let cats = match group.strings("categories") {
            Ok(v) => v,
            Err(e) => { return Err(e) },
        };
        let b1: String = "batch1".to_owned();
        let b2: String = "batch2".to_owned();
        let ghost cats_s: Seq<Seq<char>> = cats@.map_values(|s: String| s@);
        let mut table: Vec<BatchInCompressed> = Vec::new();
        let mut i: usize = 0;
        while i < cats.len()
            invariant
                i <= cats@.len(),
                cats_s == cats@.map_values(|s: String| s@),
                cats_s.len() == cats@.len(),
                b1@ == "batch1"@,
                b2@ == "batch2"@,
                table@.len() == i,
                forall|j: int|
                    0 <= j < i ==> (#[trigger] batch_labels()(cats_s[j])) == Some(table@[j]),
            decreases cats@.len() - i,
        {
            let c = &cats[i];
            assert(cats_s[i as int] == c@);
            if *c == b1 {
                assert(batch_labels()(cats_s[i as int]) == Some(BatchInCompressed::batch1));
                table.push(BatchInCompressed::batch1);
            } else if *c == b2 {
                assert(batch_labels()(cats_s[i as int]) == Some(BatchInCompressed::batch2));
                table.push(BatchInCompressed::batch2);
            } else {
                assert(batch_labels()(cats_s[i as int]) is None);
                assert(!labels_all_known(cats_s, batch_labels()));
                assert(first_unknown_label(cats_s, batch_labels(), c@));
                return Err(ParseError::UnknownCategory(c.clone()));
            }
            i += 1;
        }
        assert(labels_all_known(cats_s, batch_labels()));
        let codes = match group.uints("codes") {
            Ok(v) => v,
            Err(e) => { return Err(e) },
        };
        let mut out: Vec<BatchInCompressed> = Vec::new();
        let mut k: usize = 0;
        while k < codes.len()
            invariant
                k <= codes@.len(),
                cats_s == cats@.map_values(|s: String| s@),
                cats_s.len() == cats@.len(),
                out@.len() == k,
                table@.len() == cats_s.len(),
                labels_all_known(cats_s, batch_labels()),
                forall|j: int|
                    0 <= j < table@.len() ==> (#[trigger] batch_labels()(cats_s[j])) == Some(
                        table@[j],
                    ),
                forall|t: int| 0 <= t < k ==> (#[trigger] codes@[t]) < table@.len(),
                forall|t: int|
                    0 <= t < k ==> (#[trigger] out@[t]) == batch_labels()(
                        cats_s[codes@[t] as int],
                    ).unwrap(),
            decreases codes@.len() - k,
        {
            let code = codes[k];
            if code < table.len() as u64 {
                assert(batch_labels()(cats_s[code as int]) == Some(table@[code as int]));
                out.push(table[code as usize]);
            } else {
                assert(first_unknown_code(cats_s.len() as int, codes@, code));
                return Err(ParseError::UnknownCode(code));
            }
            k += 1;
        }
        Ok(out)
    }
}

/// The `X` group decodes as a count matrix at the given dimensions: its
/// `data`, `indices` and `indptr` datasets exist with their stored types,
/// and the triple satisfies the sparse layout and column invariants.
pub open spec fn count_parse_ok(g: GroupNode, n_obs: int, n_vars: int) -> bool {
    let data = spec_numerics(g, "data"@);
    let indices = spec_uints(g, "indices"@);
    let indptr = spec_uints(g, "indptr"@);
    &&& data is Some
    &&& indices is Some
    &&& indptr is Some
    &&& sparse_layout_ok(data.unwrap(), indices.unwrap(), indptr.unwrap(), n_obs)
    &&& columns_ok(indices.unwrap(), indptr.unwrap(), n_obs, n_vars)
}

/// The error a failed count decode reports, in the order the datasets are
/// read and checked.
pub open spec fn count_error(g: GroupNode, n_obs: int, n_vars: int, e: ParseError) -> bool {
    let data = spec_numerics(g, "data"@);
    let indices = spec_uints(g, "indices"@);
    let indptr = spec_uints(g, "indptr"@);
    if data is None {
        e matches ParseError::ContainerAccessFailure(m) && m@ == "data"@
    } else if indices is None {
        e matches ParseError::ContainerAccessFailure(m) && m@ == "indices"@
    } else if indptr is None {
        e matches ParseError::ContainerAccessFailure(m) && m@ == "indptr"@
    } else if !sparse_layout_ok(data.unwrap(), indices.unwrap(), indptr.unwrap(), n_obs) {
        e matches ParseError::MalformedSparseLayout
    } else if !columns_ok(indices.unwrap(), indptr.unwrap(), n_obs, n_vars) {
        e matches ParseError::OutOfBoundsColumn(c, b) && b as int == n_vars && first_bad_column(
            indices.unwrap(),
            indptr.unwrap(),
            n_obs,
            n_vars,
            c,
        )
    } else {
        false
    }
}

/// The primary count matrix, materialized dense and row-major. Each cell
/// carries the stored single-precision payload by its bit pattern; a cell no
/// sparse entry touches is zero.
#[derive(Debug, Clone)]
pub struct Count {
    pub grid: Vec<Vec<u32>>,
    pub cols: usize,
}

impl View for Count {
    type V = Seq<Seq<u32>>;

    open spec fn view(&self) -> Seq<Seq<u32>> {
        self.grid@.map_values(|row: Vec<u32>| row@)
    }
}

impl Count {
    /// Every row of the grid spans the declared column count.
    pub open spec fn wf(&self) -> bool {
        forall|i: int| 0 <= i < self@.len() ==> (#[trigger] self@[i]).len() == self.cols
    }

    /// The number of matrix rows (observations).
    pub fn n_obs(&self) -> (n: usize)
        ensures
            n as int == self@.len(),
    {
        self.grid.len()
    }

    /// The number of matrix columns (variables).
    pub fn n_vars(&self) -> (n: usize)
        ensures
            n == self.cols,
    {
        self.cols
    }

    /// The bit pattern stored at row `i`, column `j`.
    pub fn value_bits(&self, i: usize, j: usize) -> (v: u32)
        requires
            i < self@.len(),
            j < self@[i as int].len(),
        ensures
            v == self@[i as int][j as int],
    {
        self.grid[i][j]
    }

    /// Decode the `data`/`indices`/`indptr` triple of `group` into a dense
    /// `n_obs` by `n_vars` matrix, zero-initialized, with each sparse entry
    /// placed at its row and stored column. Row pointers beyond `n_obs` rows
    /// are not read; a column index at or past `n_vars` fails the decode.
    pub fn parse(group: &GroupNode, n_obs: usize, n_vars: usize) -> (r: Result<Count, ParseError>)
        ensures
            r is Ok <==> count_parse_ok(*group, n_obs as int, n_vars as int),
            r matches Ok(c) ==> {
                &&& dense_decoded(
                    spec_numerics(*group, "data"@).unwrap(),
                    spec_uints(*group, "indices"@).unwrap(),
                    spec_uints(*group, "indptr"@).unwrap(),
                    n_obs as int,
                    n_vars as int,
                    c@,
                )
                &&& c.wf()
                &&& c@.len() == n_obs
                &&& c.cols == n_vars
            },
            r matches Err(e) ==> count_error(*group, n_obs as int, n_vars as int, e),
    {
        let data = match group.numerics("data") {
            Ok(v) => v,
            Err(e) => { return Err(e) },
        };
        let indices = match group.uints("indices") {
            Ok(v) => v,
            Err(e) => { return Err(e) },
        };
        let indptr = match group.uints("indptr") {
            Ok(v) => v,
            Err(e) => { return Err(e) },
        };
        if !check_sparse_layout(data, indices, indptr, n_obs) {
            return Err(ParseError::MalformedSparseLayout);
        }
        match find_column_violation(data, indices, indptr, n_obs, n_vars) {
            Some(c) => { return Err(ParseError::OutOfBoundsColumn(c, n_vars)) },
            None => {},
        }
        let m = fill_dense(data, indices, indptr, n_obs, n_vars);
        Ok(Count { grid: m, cols: n_vars })
    }
}

/// Whether the triple can be read out for `n_obs` rows, checked in one pass
/// over the first `n_obs + 1` row pointers.
#[verifier::loop_isolation(false)]
fn check_sparse_layout(data: &Vec<u32>, indices: &Vec<u64>, indptr: &Vec<u64>, n_obs: usize) -> (ok:
    bool)
    ensures
        ok == sparse_layout_ok(data@, indices@, indptr@, n_obs as int),
{
    if data.len() != indices.len() {
        return false;
    }
    if n_obs >= indptr.len() {
        return false;
    }
    let mut i: usize = 0;
    while i < n_obs
        invariant
            i <= n_obs,
            forall|t: int|
                0 <= t < i ==> (#[trigger] indptr@[t]) as int <= indptr@[t + 1] as int && indptr@[
                    t + 1
                ] as int <= data@.len(),
        decreases n_obs - i,
    {
        let lo = indptr[i];
        let hi = indptr[i + 1];
        if lo > hi || hi > data.len() as u64 {
            return false;
        }
        i += 1;
    }
    true
}

/// The first column index of a used slot to reach `n_vars`, if any.
fn find_column_violation(
    data: &Vec<u32>,
    indices: &Vec<u64>,
    indptr: &Vec<u64>,
    n_obs: usize,
    n_vars: usize,
) -> (r: Option<u64>)
    requires
        sparse_layout_ok(data@, indices@, indptr@, n_obs as int),
    ensures
        r is None ==> columns_ok(indices@, indptr@, n_obs as int, n_vars as int),
        r matches Some(c) ==> !columns_ok(indices@, indptr@, n_obs as int, n_vars as int)
            && first_bad_column(indices@, indptr@, n_obs as int, n_vars as int, c),
{
    if n_obs == 0 {
        return None;
    }
    proof {
        lemma_layout_bounds(data@, indices@, indptr@, n_obs as int);
    }
    proof {
        vstd::std_specs::vec::axiom_spec_len(data);
    }
    assert(data@.len() <= usize::MAX);
    let lo = indptr[0];
    let hi = indptr[n_obs];
    let start_us: usize = lo as usize;
    let end_us: usize = hi as usize;
    let mut k: usize = start_us;
    while k < end_us
        invariant
            0 < n_obs,
            lo == indptr@[0],
            hi == indptr@[n_obs as int],
            lo as int <= hi as int,
            hi as int <= data@.len(),
            data@.len() == indices@.len(),
            end_us as int == hi as int,
            lo as int <= k as int <= hi as int,
            forall|t: int| lo as int <= t < k as int ==> ((#[trigger] indices@[t]) as int) < n_vars,
        decreases end_us - k,
    {
        let col = indices[k];
        if col >= n_vars as u64 {
            assert(used_slot(indptr@, n_obs as int, k as int));
            assert(first_bad_column(
                indices@,
                indptr@,
                n_obs as int,
                n_vars as int,
                indices@[k as int],
            ));
            return Some(col);
        }
        k += 1;
    }
    assert(columns_ok(indices@, indptr@, n_obs as int, n_vars as int));
    None
}

/// Materialize the dense grid of a checked triple: `n_obs` zero-initialized
/// rows of `n_vars` cells, each sparse entry placed at its stored column.
#[verifier::rlimit(60)]
fn fill_dense(
    data: &Vec<u32>,
    indices: &Vec<u64>,
    indptr: &Vec<u64>,
    n_obs: usize,
    n_vars: usize,
) -> (m: Vec<Vec<u32>>)
    requires
        sparse_layout_ok(data@, indices@, indptr@, n_obs as int),
        columns_ok(indices@, indptr@, n_obs as int, n_vars as int),
    ensures
        m@.len() == n_obs,
        forall|r_i: int| 0 <= r_i < n_obs ==> (#[trigger] m@[r_i]@).len() == n_vars,
        forall|r_i: int, j: int|
            0 <= r_i < n_obs && 0 <= j < n_vars ==> (#[trigger] m@[r_i]@[j]) == row_cell(
                data@,
                indices@,
                indptr@[r_i] as int,
                indptr@[r_i + 1] as int,
                j,
            ),
{
    assert(forall|t: int|
        0 <= t < n_obs ==> (#[trigger] indptr@[t]) as int <= indptr@[t + 1] as int && indptr@[
            t + 1
        ] as int <= data@.len());
    let mut m: Vec<Vec<u32>> = Vec::new();
    let mut i: usize = 0;
    while i < n_obs
        invariant
            n_obs + 1 <= indptr@.len(),
            data@.len() == indices@.len(),
            forall|t: int|
                0 <= t < n_obs ==> (#[trigger] indptr@[t]) as int <= indptr@[t + 1] as int
                    && indptr@[t + 1] as int <= data@.len(),
            columns_ok(indices@, indptr@, n_obs as int, n_vars as int),
            i <= n_obs,
            m@.len() == i,
            forall|r_i: int| 0 <= r_i < i ==> (#[trigger] m@[r_i]@).len() == n_vars,
            forall|r_i: int, j: int|
                0 <= r_i < i && 0 <= j < n_vars ==> (#[trigger] m@[r_i]@[j]) == row_cell(
                    data@,
                    indices@,
                    indptr@[r_i] as int,
                    indptr@[r_i + 1] as int,
                    j,
                ),
        decreases n_obs - i,
    {
        assert((#[trigger] indptr@[i as int]) as int <= indptr@[i as int + 1] as int && indptr@[
            i as int + 1
        ] as int <= data@.len());
        proof {
            vstd::std_specs::vec::axiom_spec_len(data);
        }
        assert(data@.len() <= usize::MAX);
        let start = indptr[i] as usize;
        let end = indptr[i + 1] as usize;
        let mut row: Vec<u32> = Vec::new();
        let mut j: usize = 0;
        while j < n_vars
            invariant
                j <= n_vars,
                row@.len() == j,
                forall|t: int| 0 <= t < j ==> (#[trigger] row@[t]) == 0u32,
            decreases n_vars - j,
        {
            row.push(0u32);
            j += 1;
        }
        let mut k: usize = start;
        while k < end
            invariant
                n_obs + 1 <= indptr@.len(),
                data@.len() == indices@.len(),
                forall|t: int|
                    0 <= t < n_obs ==> (#[trigger] indptr@[t]) as int <= indptr@[t + 1] as int
                        && indptr@[t + 1] as int <= data@.len(),
                columns_ok(indices@, indptr@, n_obs as int, n_vars as int),
                i < n_obs,
                start == indptr@[i as int] as int,
                end == indptr@[i as int + 1] as int,
                end <= data@.len(),
                start <= k <= end,
                row@.len() == n_vars,
                forall|t: int|
                    0 <= t < n_vars ==> (#[trigger] row@[t]) == row_cell(
                        data@,
                        indices@,
                        start as int,
                        k as int,
                        t,
                    ),
            decreases end - k,
        {
            proof {
                lemma_indptr_chain(indptr@, n_obs as int, 0, i as int);
                lemma_indptr_chain(indptr@, n_obs as int, i as int + 1, n_obs as int);
                assert(used_slot(indptr@, n_obs as int, k as int));
                assert((indices@[k as int] as int) < n_vars);
            }
            let col = indices[k] as usize;
            let val = data[k];
            row.set(col, val);
            proof {
                assert forall|t: int| 0 <= t < n_vars implies row@[t] == row_cell(
                    data@,
                    indices@,
                    start as int,
                    k as int + 1,
                    t,
                ) by {
                    assert(row_cell(data@, indices@, start as int, k as int + 1, t) == (
                    if indices@[k as int] as int == t {
                        data@[k as int]
                    } else {
                        row_cell(data@, indices@, start as int, k as int, t)
                    }));
                }
            }
            k += 1;
        }
        m.push(row);
        i += 1;
    }
    m
}

/// The obs group decodes: `batch` and `library` categorical subgroups, a
/// string `_index` column, and all three columns of one length.
pub open spec fn obs_parse_ok(g: GroupNode) -> bool {
    let bg = spec_find_group(g, "batch"@);
    let lg = spec_find_group(g, "library"@);
    let ix = spec_strings(g, "_index"@);
    &&& bg is Some
    &&& categorical_ok(bg.unwrap(), batch_labels())
    &&& lg is Some
    &&& categorical_ok(lg.unwrap(), library_labels())
    &&& ix is Some
    &&& spec_uints(bg.unwrap(), "codes"@).unwrap().len() == ix.unwrap().len()
    &&& spec_uints(lg.unwrap(), "codes"@).unwrap().len() == ix.unwrap().len()
}

/// The row count a successful obs decode yields: its `_index` length.
pub open spec fn obs_parsed_len(g: GroupNode) -> int {
    match spec_strings(g, "_index"@) {
        Some(ix) => ix.len() as int,
        None => 0,
    }
}

/// The error a failed obs decode reports, in the order the columns are read:
/// batch, library, `_index`, then the length-consistency check.
pub open spec fn obs_error(g: GroupNode, e: ParseError) -> bool {
    let bg = spec_find_group(g, "batch"@);
    let lg = spec_find_group(g, "library"@);
    let ix = spec_strings(g, "_index"@);
    if bg is None {
        e matches ParseError::ContainerAccessFailure(m) && m@ == "batch"@
    } else if !categorical_ok(bg.unwrap(), batch_labels()) {
        categorical_error(bg.unwrap(), batch_labels(), e)
    } else if lg is None {
        e matches ParseError::ContainerAccessFailure(m) && m@ == "library"@
    } else if !categorical_ok(lg.unwrap(), library_labels()) {
        categorical_error(lg.unwrap(), library_labels(), e)
    } else if ix is None {
        e matches ParseError::ContainerAccessFailure(m) && m@ == "_index"@
    } else if spec_uints(bg.unwrap(), "codes"@).unwrap().len() != ix.unwrap().len()
        || spec_uints(lg.unwrap(), "codes"@).unwrap().len() != ix.unwrap().len() {
        e matches ParseError::Other(_)
    } else {
        false
    }
}

/// The observation annotation table: two categorical columns and the row
/// identifiers, one entry of each per observation.
#[derive(Debug, Clone)]
pub struct ObsInCompressed {
    pub library: Vec<LibraryInCompressed>,
    pub batch: Vec<BatchInCompressed>,
    pub index: Vec<String>,
}

impl ObsInCompressed {
    /// Every column spans the same number of rows.
    pub open spec fn wf(&self) -> bool {
        self.library@.len() == self.index@.len() && self.batch@.len() == self.index@.len()
    }

    /// The number of observation rows, from the `_index` column.
    pub fn len(&self) -> (n: usize)
        ensures
            n == self.index@.len(),
    {
        self.index.len()
    }

    /// Decode the obs table: the `batch` and `library` categorical columns
    /// and the `_index` identifiers, all required, checked to agree in
    /// length.
    pub fn parse(group: &GroupNode) -> (r: Result<ObsInCompressed, ParseError>)
        ensures
            r is Ok <==> obs_parse_ok(*group),
            r matches Ok(o) ==> {
                &&& categorical_decoded(
                    spec_find_group(*group, "batch"@).unwrap(),
                    batch_labels(),
                    o.batch@,
                )
                &&& categorical_decoded(
                    spec_find_group(*group, "library"@).unwrap(),
                    library_labels(),
                    o.library@,
                )
                &&& o.index@.map_values(|s: String| s@) == spec_strings(*group, "_index"@).unwrap()
                &&& o.wf()
                &&& o.index@.len() == obs_parsed_len(*group)
            },
            r matches Err(e) ==> obs_error(*group, e),
    {
        let batches = match group.group("batch") {
            Ok(g) => g,
            Err(e) => { return Err(e) },
        };
        let batch = match BatchInCompressed::parse(batches) {
            Ok(v) => v,
            Err(e) => { return Err(e) },
        };
        let libraries = match group.group("library") {
            Ok(g) => g,
            Err(e) => { return Err(e) },
        };
        let library = match LibraryInCompressed::parse(libraries) {
            Ok(v) => v,
            Err(e) => { return Err(e) },
        };
        let index_col = match group.strings("_index") {
            Ok(v) => v,
            Err(e) => { return Err(e) },
        };
        let index = clone_strings(index_col);
        if batch.len() != index.len() || library.len() != index.len() {
            return Err(ParseError::Other("column length mismatch".to_owned()));
        }
        Ok(ObsInCompressed { library, batch, index })
    }
}

/// The var group decodes: string `_index` and `genes` columns and a boolean
/// `is_hvg` column, all of one length.
pub open spec fn var_parse_ok(g: GroupNode) -> bool {
    let ix = spec_strings(g, "_index"@);
    let genes = spec_strings(g, "genes"@);
    let hvg = spec_bools(g, "is_hvg"@);
    &&& ix is Some
    &&& genes is Some
    &&& hvg is Some
    &&& genes.unwrap().len() == ix.unwrap().len()
    &&& hvg.unwrap().len() == ix.unwrap().len()
}

/// The row count a successful var decode yields: its `_index` length.
pub open spec fn var_parsed_len(g: GroupNode) -> int {
    match spec_strings(g, "_index"@) {
        Some(ix) => ix.len() as int,
        None => 0,
    }
}

/// The error a failed var decode reports, in the order the columns are
/// read: `_index`, `genes`, `is_hvg`, then the length-consistency check.
pub open spec fn var_error(g: GroupNode, e: ParseError) -> bool {
    let ix = spec_strings(g, "_index"@);
    let genes = spec_strings(g, "genes"@);
    let hvg = spec_bools(g, "is_hvg"@);
    if ix is None {
        e matches ParseError::ContainerAccessFailure(m) && m@ == "_index"@
    } else if genes is None {
        e matches ParseError::ContainerAccessFailure(m) && m@ == "genes"@
    } else if hvg is None {
        e matches ParseError::ContainerAccessFailure(m) && m@ == "is_hvg"@
    } else if genes.unwrap().len() != ix.unwrap().len() || hvg.unwrap().len()
        != ix.unwrap().len() {
        e matches ParseError::Other(_)
    } else {
        false
    }
}

/// The variable annotation table: row identifiers, gene names, and the
/// highly-variable flag, one entry of each per variable.
#[derive(Debug, Clone)]
pub struct VarInCompressed {
    pub index: Vec<String>,
    pub genes: Vec<String>,
    pub is_hvg: Vec<bool>,
}

impl VarInCompressed {
    /// Every column spans the same number of rows.
    pub open spec fn wf(&self) -> bool {
        self.genes@.len() == self.index@.len() && self.is_hvg@.len() == self.index@.len()
    }

    /// The number of variable rows, from the `_index` column.
    pub fn len(&self) -> (n: usize)
        ensures
            n == self.index@.len(),
    {
        self.index.len()
    }

    /// Decode the var table: the `_index` and `genes` string columns and the
    /// `is_hvg` boolean column, all required, checked to agree in length.
    pub fn parse(group: &GroupNode) -> (r: Result<VarInCompressed, ParseError>)
        ensures
            r is Ok <==> var_parse_ok(*group),
            r matches Ok(v) ==> {
                &&& v.index@.map_values(|s: String| s@) == spec_strings(*group, "_index"@).unwrap()
                &&& v.genes@.map_values(|s: String| s@) == spec_strings(*group, "genes"@).unwrap()
                &&& v.is_hvg@ == spec_bools(*group, "is_hvg"@).unwrap()
                &&& v.wf()
                &&& v.index@.len() == var_parsed_len(*group)
            },
            r matches Err(e) ==> var_error(*group, e),
    {
        let index_col = match group.strings("_index") {
            Ok(v) => v,
            Err(e) => { return Err(e) },
        };
        let index = clone_strings(index_col);
        let genes_col = match group.strings("genes") {
            Ok(v) => v,
            Err(e) => { return Err(e) },
        };
        let genes = clone_strings(genes_col);
        let hvg_col = match group.bools("is_hvg") {
            Ok(v) => v,
            Err(e) => { return Err(e) },
        };
        let is_hvg = clone_bools(hvg_col);
        if genes.len() != index.len() || is_hvg.len() != index.len() {
            return Err(ParseError::Other("column length mismatch".to_owned()));
        }
        Ok(VarInCompressed { index, genes, is_hvg })
    }
}

/// Placeholder per-observation multidimensional block: decodes no data yet.
#[derive(Debug, Clone, Default)]
pub struct ObsmInCompressed {}

impl ObsmInCompressed {
    /// Accept the block's group without reading it.
    pub fn parse(_group: &GroupNode) -> (r: Result<ObsmInCompressed, ParseError>)
        ensures
            r is Ok,
    {
        Ok(ObsmInCompressed {  })
    }
}

/// Placeholder per-variable multidimensional block: decodes no data yet.
#[derive(Debug, Clone, Default)]
pub struct VarmInCompressed {}

impl VarmInCompressed {
    /// Accept the block's group without reading it.
    pub fn parse(_group: &GroupNode) -> (r: Result<VarmInCompressed, ParseError>)
        ensures
            r is Ok,
    {
        Ok(VarmInCompressed {  })
    }
}

/// Placeholder observation-pairwise block: decodes no data yet.
#[derive(Debug, Clone, Default)]
pub struct ObspInCompressed {}

impl ObspInCompressed {
    /// Accept the block's group without reading it.
    pub fn parse(_group: &GroupNode) -> (r: Result<ObspInCompressed, ParseError>)
        ensures
            r is Ok,
    {
        Ok(ObspInCompressed {  })
    }
}

/// Placeholder variable-pairwise block: decodes no data yet.
#[derive(Debug, Clone, Default)]
pub struct VarmpInCompressed {}

impl VarmpInCompressed {
    /// Accept the block's group without reading it.
    pub fn parse(_group: &GroupNode) -> (r: Result<VarmpInCompressed, ParseError>)
        ensures
            r is Ok,
    {
        Ok(VarmpInCompressed {  })
    }
}

/// Placeholder additional-matrix block: decodes no data yet.
#[derive(Debug, Clone, Default)]
pub struct LayersInCompressed {}

impl LayersInCompressed {
    /// Accept the block's group without reading it.
    pub fn parse(_group: &GroupNode) -> (r: Result<LayersInCompressed, ParseError>)
        ensures
            r is Ok,
    {
        Ok(LayersInCompressed {  })
    }
}

impl EnumInAnnData for LibraryInCompressed {
    open spec fn parse_ok(group: GroupNode) -> bool {
        categorical_ok(group, library_labels())
    }

    fn parse(group: &GroupNode) -> (r: Result<Vec<LibraryInCompressed>, ParseError>) {
        LibraryInCompressed::parse(group)
    }
}

impl EnumInAnnData for BatchInCompressed {
    open spec fn parse_ok(group: GroupNode) -> bool {
        categorical_ok(group, batch_labels())
    }

    fn parse(group: &GroupNode) -> (r: Result<Vec<BatchInCompressed>, ParseError>) {
        BatchInCompressed::parse(group)
    }
}

impl ObsInAnnData for ObsInCompressed {
    open spec fn parse_ok(group: GroupNode) -> bool {
        obs_parse_ok(group)
    }

    open spec fn parsed_len(group: GroupNode) -> int {
        obs_parsed_len(group)
    }

    open spec fn spec_len(&self) -> int {
        self.index@.len() as int
    }

    fn parse(group: &GroupNode) -> (r: Result<ObsInCompressed, ParseError>) {
        ObsInCompressed::parse(group)
    }

    fn len(&self) -> (n: usize) {
        ObsInCompressed::len(self)
    }
}

impl VarInAnnData for VarInCompressed {
    open spec fn parse_ok(group: GroupNode) -> bool {
        var_parse_ok(group)
    }

    open spec fn parsed_len(group: GroupNode) -> int {
        var_parsed_len(group)
    }

    open spec fn spec_len(&self) -> int {
        self.index@.len() as int
    }

    fn parse(group: &GroupNode) -> (r: Result<VarInCompressed, ParseError>) {
        VarInCompressed::parse(group)
    }

    fn len(&self) -> (n: usize) {
        VarInCompressed::len(self)
    }
}

impl ObsmInAnnData for ObsmInCompressed {
    open spec fn parse_ok(group: GroupNode) -> bool {
        true
    }

    fn parse(group: &GroupNode) -> (r: Result<ObsmInCompressed, ParseError>) {
        ObsmInCompressed::parse(group)
    }
}

impl VarmInAnnData for VarmInCompressed {
    open spec fn parse_ok(group: GroupNode) -> bool {
        true
    }

    fn parse(group: &GroupNode) -> (r: Result<VarmInCompressed, ParseError>) {
        VarmInCompressed::parse(group)
    }
}

impl ObspInAnnData for ObspInCompressed {
    open spec fn parse_ok(group: GroupNode) -> bool {
        true
    }

    fn parse(group: &GroupNode) -> (r: Result<ObspInCompressed, ParseError>) {
        ObspInCompressed::parse(group)
    }
}

impl VarmpInAnnData for VarmpInCompressed {
    open spec fn parse_ok(group: GroupNode) -> bool {
        true
    }

    fn parse(group: &GroupNode) -> (r: Result<VarmpInCompressed, ParseError>) {
        VarmpInCompressed::parse(group)
    }
}

impl LayersInAnnData for LayersInCompressed {
    open spec fn parse_ok(group: GroupNode) -> bool {
        true
    }

    fn parse(group: &GroupNode) -> (r: Result<LayersInCompressed, ParseError>) {
        LayersInCompressed::parse(group)
    }
}

impl XInAnnData for Count {
    open spec fn parse_ok(group: GroupNode, n_obs: int, n_vars: int) -> bool {
        count_parse_ok(group, n_obs, n_vars)
    }

    open spec fn spec_rows(&self) -> int {
        self@.len() as int
    }

    open spec fn spec_cols(&self) -> int {
        self.cols as int
    }

    fn parse(group: &GroupNode, n_obs: usize, n_vars: usize) -> (r: Result<Count, ParseError>) {
        Count::parse(group, n_obs, n_vars)
    }
}

/// The fully composed schema of the compressed dataset.
pub type AnnDataCompressed = AnnData<
    ObsInCompressed,
    VarInCompressed,
    ObsmInCompressed,
    VarmInCompressed,
    ObspInCompressed,
    VarmpInCompressed,
    LayersInCompressed,
    Count,
>;

} // verus!
