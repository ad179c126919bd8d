//! The mathematics of compressed sparse row triples: when a triple is
//! readable, what value each cell of the dense materialization holds, and
//! the placement law for nonzero entries.
use vstd::prelude::*;

use vstd::relations::injective_on;
use vstd::set_lib::{lemma_int_range, lemma_map_size, set_int_range};

verus! {

/// The triple `(data, indices, indptr)` can be read out for `n_obs` rows:
/// values and column indices run in parallel, there is a row pointer past
/// each of the `n_obs` rows, and the pointers rise monotonically without
/// passing the end of `data`. Row pointers beyond the first `n_obs` rows
/// are never read and so are unconstrained.
pub open spec fn sparse_layout_ok(
    data: Seq<u32>,
    indices: Seq<u64>,
    indptr: Seq<u64>,
    n_obs: int,
) -> bool {
    &&& data.len() == indices.len()
    &&& indptr.len() >= n_obs + 1
    &&& forall|i: int|
        0 <= i < n_obs ==> (#[trigger] indptr[i]) as int <= indptr[i + 1] as int && indptr[
            i + 1
        ] as int <= data.len()
}

/// Slot `k` of `data`/`indices` belongs to one of the `n_obs` decoded rows.
pub open spec fn used_slot(indptr: Seq<u64>, n_obs: int, k: int) -> bool {
    0 < n_obs && (indptr[0] as int) <= k < (indptr[n_obs] as int)
}

/// Every column index of a decoded row stays below `n_vars`.
pub open spec fn columns_ok(
    indices: Seq<u64>,
    indptr: Seq<u64>,
    n_obs: int,
    n_vars: int,
) -> bool {
    forall|k: int| used_slot(indptr, n_obs, k) ==> ((#[trigger] indices[k]) as int) < n_vars
}

/// `c` is the first decoded column index that reaches `n_vars`.
pub open spec fn first_bad_column(
    indices: Seq<u64>,
    indptr: Seq<u64>,
    n_obs: int,
    n_vars: int,
    c: u64,
) -> bool {
    exists|k: int|
        {
            &&& used_slot(indptr, n_obs, k)
            &&& (#[trigger] indices[k]) == c
            &&& c as int >= n_vars
            &&& forall|j: int|
                indptr[0] as int <= j < k ==> ((#[trigger] indices[j]) as int) < n_vars
        }
}

/// The value slots `start..end` put at column `j`: the last slot whose
/// column index hits `j` wins, and a column no slot hits stays zero.
pub open spec fn row_cell(data: Seq<u32>, indices: Seq<u64>, start: int, end: int, j: int) -> u32
    decreases end - start,
{
    if start >= end {
        0u32
    } else if indices[end - 1] as int == j {
        data[end - 1]
    } else {
        row_cell(data, indices, start, end - 1, j)
    }
}

/// `m` is the dense row-major materialization of the triple: `n_obs` rows of
/// `n_vars` cells, each cell the value its row's slots put there.
pub open spec fn dense_decoded(
    data: Seq<u32>,
    indices: Seq<u64>,
    indptr: Seq<u64>,
    n_obs: int,
    n_vars: int,
    m: Seq<Seq<u32>>,
) -> bool {
    &&& m.len() == n_obs
    &&& forall|i: int| 0 <= i < n_obs ==> (#[trigger] m[i]).len() == n_vars
    &&& forall|i: int, j: int|
        0 <= i < n_obs && 0 <= j < n_vars ==> (#[trigger] m[i][j]) == row_cell(
            data,
            indices,
            indptr[i] as int,
            indptr[i + 1] as int,
            j,
        )
}

/// The row whose slot run holds `k`: the largest `i < n_obs` with
/// `indptr[i] <= k`.
pub open spec fn row_of(indptr: Seq<u64>, n_obs: int, k: int) -> int
    decreases n_obs,
{
    if n_obs <= 0 {
        0
    } else if indptr[n_obs - 1] as int <= k {
        n_obs - 1
    } else {
        row_of(indptr, n_obs - 1, k)
    }
}

/// Monotone row pointers rise over any pair of positions.
pub proof fn lemma_indptr_chain(indptr: Seq<u64>, n_obs: int, a: int, b: int)
    requires
        forall|i: int|
            0 <= i < n_obs ==> (#[trigger] indptr[i]) as int <= indptr[i + 1] as int,
        0 <= a <= b <= n_obs,
    ensures
        indptr[a] as int <= indptr[b] as int,
    decreases b - a,
{
    if a < b {
        lemma_indptr_chain(indptr, n_obs, a, b - 1);
        assert(indptr[b - 1] as int <= indptr[b] as int);
    }
}

/// The facts a reader of a well-laid-out triple leans on: the used run is
/// ordered and ends within `data`.
pub proof fn lemma_layout_bounds(data: Seq<u32>, indices: Seq<u64>, indptr: Seq<u64>, n_obs: int)
    requires
        sparse_layout_ok(data, indices, indptr, n_obs),
        n_obs > 0,
    ensures
        indptr[0] as int <= indptr[n_obs] as int,
        indptr[n_obs] as int <= data.len(),
        data.len() == indices.len(),
        indptr.len() >= n_obs + 1,
{
    lemma_indptr_chain(indptr, n_obs, 0, n_obs);
    assert(indptr[n_obs - 1] as int <= indptr[n_obs] as int && indptr[n_obs] as int
        <= data.len());
}

/// A slot inside row `i`'s run is attributed to row `i`.
proof fn lemma_row_of_at(indptr: Seq<u64>, n_obs: int, i: int, k: int)
    requires
        forall|t: int|
            0 <= t < n_obs ==> (#[trigger] indptr[t]) as int <= indptr[t + 1] as int,
        0 <= i < n_obs,
        indptr[i] as int <= k < indptr[i + 1] as int,
    ensures
        row_of(indptr, n_obs, k) == i,
    decreases n_obs,
{
    if indptr[n_obs - 1] as int <= k {
        if i < n_obs - 1 {
            lemma_indptr_chain(indptr, n_obs, i + 1, n_obs - 1);
            assert(false);
        }
    } else {
        if i == n_obs - 1 {
            assert(false);
        }
        lemma_row_of_at(indptr, n_obs - 1, i, k);
    }
}

/// Every used slot is attributed to a row whose run holds it.
proof fn lemma_row_of_bounds(indptr: Seq<u64>, n_obs: int, k: int)
    requires
        forall|t: int|
            0 <= t < n_obs ==> (#[trigger] indptr[t]) as int <= indptr[t + 1] as int,
        0 < n_obs,
        (indptr[0] as int) <= k < (indptr[n_obs] as int),
    ensures
        0 <= row_of(indptr, n_obs, k) < n_obs,
        indptr[row_of(indptr, n_obs, k)] as int <= k < indptr[row_of(indptr, n_obs, k)
            + 1] as int,
    decreases n_obs,
{
    if indptr[n_obs - 1] as int <= k {
    } else if n_obs == 1 {
        assert(false);
    } else {
        lemma_row_of_bounds(indptr, n_obs - 1, k);
    }
}

/// A row whose slots repeat no column places each slot's value at that
/// slot's column.
proof fn lemma_row_cell_hit(data: Seq<u32>, indices: Seq<u64>, start: int, end: int, k: int)
    requires
        0 <= start <= end <= indices.len(),
        data.len() == indices.len(),
        start <= k < end,
        forall|k1: int, k2: int|
            start <= k1 < end && start <= k2 < end && k1 != k2 ==> (#[trigger] indices[k1])
                != (#[trigger] indices[k2]),
    ensures
        row_cell(data, indices, start, end, indices[k] as int) == data[k],
    decreases end - start,
{
    if k == end - 1 {
    } else {
        assert(indices[end - 1] != indices[k]);
        lemma_row_cell_hit(data, indices, start, end - 1, k);
    }
}

/// A column no slot of the row hits stays zero.
proof fn lemma_row_cell_miss(data: Seq<u32>, indices: Seq<u64>, start: int, end: int, j: int)
    requires
        forall|t: int| start <= t < end ==> (#[trigger] indices[t]) as int != j,
    ensures
        row_cell(data, indices, start, end, j) == 0,
    decreases end - start,
{
    if start < end {
        lemma_row_cell_miss(data, indices, start, end - 1, j);
    }
}

/// Entry `k` of `data` stands, unchanged, at row `row_of(k)` and column
/// `indices[k]` of the dense materialization `m`.
pub open spec fn data_entry_placed(
    data: Seq<u32>,
    indices: Seq<u64>,
    indptr: Seq<u64>,
    n_obs: int,
    n_vars: int,
    m: Seq<Seq<u32>>,
    k: int,
) -> bool {
    let i = row_of(indptr, n_obs, k);
    &&& 0 <= i < n_obs
    &&& (indices[k] as int) < n_vars
    &&& m[i][indices[k] as int] == data[k]
}

/// Placement of the dense materialization's nonzero entries.
///
/// For a triple satisfying the layout and column invariants, whose row runs
/// cover all of `data`, whose values are nonzero, and whose rows repeat no
/// column: each `data[k]` stands at row `row_of(k)`, column `indices[k]`,
/// and every other cell of the matrix is zero — so the matrix's nonzero
/// entries are exactly the entries of `data`.
pub proof fn lemma_dense_matrix_entries(
    data: Seq<u32>,
    indices: Seq<u64>,
    indptr: Seq<u64>,
    n_obs: int,
    n_vars: int,
    m: Seq<Seq<u32>>,
)
    requires
        sparse_layout_ok(data, indices, indptr, n_obs),
        columns_ok(indices, indptr, n_obs, n_vars),
        dense_decoded(data, indices, indptr, n_obs, n_vars, m),
        n_obs >= 0,
        n_obs > 0 ==> indptr[0] == 0 && indptr[n_obs] as int == data.len(),
        n_obs == 0 ==> data.len() == 0,
        forall|k: int| 0 <= k < data.len() ==> (#[trigger] data[k]) != 0,
        forall|i: int, k1: int, k2: int|
            #![trigger indptr[i], indices[k1], indices[k2]]
            0 <= i < n_obs && indptr[i] as int <= k1 < indptr[i + 1] as int
                && indptr[i] as int <= k2 < indptr[i + 1] as int && k1 != k2 ==> indices[k1]
                != indices[k2],
    ensures
        forall|k: int|
            0 <= k < data.len() ==> #[trigger] data_entry_placed(
                data,
                indices,
                indptr,
                n_obs,
                n_vars,
                m,
                k,
            ),
        forall|i: int, j: int|
            0 <= i < n_obs && 0 <= j < n_vars ==> ((#[trigger] m[i][j]) != 0 <==> exists|k: int|
                0 <= k < data.len() && row_of(indptr, n_obs, k) == i && (#[trigger] indices[
                    k
                ]) as int == j),
{
    assert forall|k: int| 0 <= k < data.len() implies data_entry_placed(
        data,
        indices,
        indptr,
        n_obs,
        n_vars,
        m,
        k,
    ) by {
        lemma_row_of_bounds(indptr, n_obs, k);
        let i = row_of(indptr, n_obs, k);
        assert(used_slot(indptr, n_obs, k));
        assert forall|k1: int, k2: int|
            indptr[i] as int <= k1 < indptr[i + 1] as int && indptr[i] as int <= k2 < indptr[
                i + 1
            ] as int && k1 != k2 implies indices[k1] != indices[k2] by {
            assert(indptr[i] as int <= k1);
        }
        lemma_indptr_chain(indptr, n_obs, i + 1, n_obs);
        lemma_row_cell_hit(data, indices, indptr[i] as int, indptr[i + 1] as int, k);
    }
    assert forall|i: int, j: int| 0 <= i < n_obs && 0 <= j < n_vars implies ((m[i][j]) != 0
        <==> exists|k: int|
        0 <= k < data.len() && row_of(indptr, n_obs, k) == i && (#[trigger] indices[
            k
        ]) as int == j) by {
        if exists|k: int|
            0 <= k < data.len() && row_of(indptr, n_obs, k) == i && (#[trigger] indices[
                k
            ]) as int == j {
            let k = choose|k: int|
                0 <= k < data.len() && row_of(indptr, n_obs, k) == i && (#[trigger] indices[
                    k
                ]) as int == j;
            assert(data_entry_placed(data, indices, indptr, n_obs, n_vars, m, k));
            assert(m[i][j] == data[k]);
            assert(m[i][j] != 0);
        } else {
            assert forall|t: int|
                indptr[i] as int <= t < indptr[i + 1] as int implies (indices[t]) as int
                != j by {
                lemma_row_of_at(indptr, n_obs, i, t);
                lemma_indptr_chain(indptr, n_obs, 0, i);
                lemma_indptr_chain(indptr, n_obs, i + 1, n_obs);
                assert(0 <= t < data.len());
                assert(row_of(indptr, n_obs, t) == i);
            }
            lemma_row_cell_miss(data, indices, indptr[i] as int, indptr[i + 1] as int, j);
            assert(m[i][j] == 0);
        }
    }
}

/// The cells of the dense materialization `m` that hold a nonzero pattern,
/// as (row, column) pairs.
pub open spec fn nonzero_cells(m: Seq<Seq<u32>>) -> Set<(int, int)> {
    Set::new(
        |p: (int, int)|
            0 <= p.0 < m.len() && 0 <= p.1 < m[p.0].len() && m[p.0][p.1] != 0,
    )
}

/// Counting corollary of the placement law: under the same hypotheses the
/// dense materialization holds exactly `data.len()` nonzero cells.
pub proof fn lemma_dense_nonzero_count(
    data: Seq<u32>,
    indices: Seq<u64>,
    indptr: Seq<u64>,
    n_obs: int,
    n_vars: int,
    m: Seq<Seq<u32>>,
)
    requires
        sparse_layout_ok(data, indices, indptr, n_obs),
        columns_ok(indices, indptr, n_obs, n_vars),
        dense_decoded(data, indices, indptr, n_obs, n_vars, m),
        n_obs >= 0,
        n_obs > 0 ==> indptr[0] == 0 && indptr[n_obs] as int == data.len(),
        n_obs == 0 ==> data.len() == 0,
        forall|k: int| 0 <= k < data.len() ==> (#[trigger] data[k]) != 0,
        forall|i: int, k1: int, k2: int|
            #![trigger indptr[i], indices[k1], indices[k2]]
            0 <= i < n_obs && indptr[i] as int <= k1 < indptr[i + 1] as int
                && indptr[i] as int <= k2 < indptr[i + 1] as int && k1 != k2 ==> indices[k1]
                != indices[k2],
    ensures
        nonzero_cells(m).finite(),
        nonzero_cells(m).len() == data.len(),
{
    lemma_dense_matrix_entries(data, indices, indptr, n_obs, n_vars, m);
    let f = |k: int| (row_of(indptr, n_obs, k), indices[k] as int);
    let dom = set_int_range(0, data.len() as int);
    lemma_int_range(0, data.len() as int);
    assert forall|k1: int, k2: int| dom.contains(k1) && dom.contains(k2) && f(k1) == f(
        k2,
    ) implies k1 == k2 by {
        lemma_row_of_bounds(indptr, n_obs, k1);
        lemma_row_of_bounds(indptr, n_obs, k2);
        let i = row_of(indptr, n_obs, k1);
        assert(indptr[i] as int <= k1 < indptr[i + 1] as int);
        if k1 != k2 {
            assert(indices[k1] != indices[k2]);
        }
    }
    assert(injective_on(f, dom));
    assert forall|p: (int, int)| #[trigger] nonzero_cells(m).contains(p) implies dom.map(
        f,
    ).contains(p) by {
        let i = p.0;
        let j = p.1;
        assert(m[i][j] != 0);
        let k = choose|k: int|
            0 <= k < data.len() && row_of(indptr, n_obs, k) == i && (#[trigger] indices[
                k
            ]) as int == j;
        assert(dom.contains(k) && f(k) == p);
    }
    assert forall|p: (int, int)| #[trigger] dom.map(f).contains(p) implies nonzero_cells(
        m,
    ).contains(p) by {
        let k = choose|k: int| #[trigger] dom.contains(k) && f(k) == p;
        assert(data_entry_placed(data, indices, indptr, n_obs, n_vars, m, k));
        lemma_row_of_bounds(indptr, n_obs, k);
    }
    assert(dom.map(f) =~= nonzero_cells(m));
    lemma_map_size(dom, nonzero_cells(m), f);
}

} // verus!
