//! Decoding of categorical fields: a `categories` label dictionary plus a
//! `codes` run of integer indices into it.
//!
//! The label set of each categorical column is closed and supplied by the
//! schema as a spec-level table `of_label`, mapping an on-disk label to its
//! variant. An unknown label or an unresolvable code always fails the
//! decode; nothing is dropped or defaulted.
use vstd::prelude::*;

use crate::container::{spec_strings, spec_uints, GroupNode};
use crate::error::ParseError;

verus! {

/// Every label of `cats` resolves to a schema-known variant.
pub open spec fn labels_all_known<V>(
    cats: Seq<Seq<char>>,
    of_label: spec_fn(Seq<char>) -> Option<V>,
) -> bool {
    forall|i: int| 0 <= i < cats.len() ==> (#[trigger] of_label(cats[i])) is Some
}

/// `label` is the first label of `cats` with no matching variant.
pub open spec fn first_unknown_label<V>(
    cats: Seq<Seq<char>>,
    of_label: spec_fn(Seq<char>) -> Option<V>,
    label: Seq<char>,
) -> bool {
    exists|i: int|
        {
            &&& 0 <= i < cats.len()
            &&& #[trigger] cats[i] == label
            &&& of_label(label) is None
            &&& forall|j: int| 0 <= j < i ==> (#[trigger] of_label(cats[j])) is Some
        }
}

/// Every code of `codes` indexes one of `ncats` categories.
pub open spec fn codes_all_in_range(ncats: int, codes: Seq<u64>) -> bool {
    forall|k: int| 0 <= k < codes.len() ==> (#[trigger] codes[k]) < ncats
}

/// `code` is the first code of `codes` that indexes no category.
pub open spec fn first_unknown_code(ncats: int, codes: Seq<u64>, code: u64) -> bool {
    exists|k: int|
        {
            &&& 0 <= k < codes.len()
            &&& #[trigger] codes[k] == code
            &&& code >= ncats
            &&& forall|j: int| 0 <= j < k ==> (#[trigger] codes[j]) < ncats
        }
}

/// `g` holds a decodable categorical field for the label set `of_label`:
/// string categories, integer codes, every label known, every code in range.
pub open spec fn categorical_ok<V>(
    g: GroupNode,
    of_label: spec_fn(Seq<char>) -> Option<V>,
) -> bool {
    let cats_opt = spec_strings(g, "categories"@);
    let codes_opt = spec_uints(g, "codes"@);
    &&& cats_opt is Some
    &&& labels_all_known(cats_opt.unwrap(), of_label)
    &&& codes_opt is Some
    &&& codes_all_in_range(cats_opt.unwrap().len() as int, codes_opt.unwrap())
}

/// `v` is the variant run a successful decode of `g` yields: one variant per
/// code, in the codes' own order.
pub open spec fn categorical_decoded<V>(
    g: GroupNode,
    of_label: spec_fn(Seq<char>) -> Option<V>,
    v: Seq<V>,
) -> bool {
    let cats = spec_strings(g, "categories"@).unwrap();
    let codes = spec_uints(g, "codes"@).unwrap();
    &&& categorical_ok(g, of_label)
    &&& v.len() == codes.len()
    &&& forall|r: int|
        0 <= r < codes.len() ==> #[trigger] v[r] == of_label(cats[codes[r] as int]).unwrap()
}

/// The error a failed decode of `g` reports, following the read order:
/// categories first, then labels, then codes.
pub open spec fn categorical_error<V>(
    g: GroupNode,
    of_label: spec_fn(Seq<char>) -> Option<V>,
    e: ParseError,
) -> bool {
    let cats_opt = spec_strings(g, "categories"@);
    let codes_opt = spec_uints(g, "codes"@);
    if cats_opt is None {
        e matches ParseError::ContainerAccessFailure(m) && m@ == "categories"@
    } else if !labels_all_known(cats_opt.unwrap(), of_label) {
        e matches ParseError::UnknownCategory(l) && first_unknown_label(
            cats_opt.unwrap(),
            of_label,
            l@,
        )
    } else if codes_opt is None {
        e matches ParseError::ContainerAccessFailure(m) && m@ == "codes"@
    } else if !codes_all_in_range(cats_opt.unwrap().len() as int, codes_opt.unwrap()) {
        e matches ParseError::UnknownCode(c) && first_unknown_code(
            cats_opt.unwrap().len() as int,
            codes_opt.unwrap(),
            c,
        )
    } else {
        false
    }
}

/// Categorical decoding is idempotent: two successful decodes of the same
/// unmodified group yield identical variant sequences in the same order.
pub proof fn lemma_categorical_decode_idempotent<V>(
    g: GroupNode,
    of_label: spec_fn(Seq<char>) -> Option<V>,
    v1: Seq<V>,
    v2: Seq<V>,
)
    requires
        categorical_decoded(g, of_label, v1),
        categorical_decoded(g, of_label, v2),
    ensures
        v1 == v2,
{
    assert(v1 =~= v2);
}

} // verus!
