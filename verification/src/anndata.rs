//! Capability contracts for each section of an annotated-matrix file, and
//! the orchestrator that composes one whole file from them.
//!
//! A schema supplies one concrete type per section; the orchestrator is
//! generic over those eight types and fixes the parse order: obs, then var,
//! then each optional block (whose failure becomes "absent"), then the
//! matrix, sized by the obs and var row counts.
use vstd::prelude::*;

use crate::container::{spec_find_group, GroupNode};
use crate::error::ParseError;

verus! {

/// A categorical column type: a closed variant set decodable from a
/// categorical group.
pub trait EnumInAnnData: Sized {
    /// Whether `group` decodes successfully for this variant set.
    spec fn parse_ok(group: GroupNode) -> bool;

    /// Decode one variant per row from `group`.
    fn parse(group: &GroupNode) -> (r: Result<Vec<Self>, ParseError>)
        ensures
            r is Ok <==> Self::parse_ok(*group),
    ;
}

/// The observation annotation table of a file.
pub trait ObsInAnnData: Sized {
    /// Whether `group` decodes successfully into this table type.
    spec fn parse_ok(group: GroupNode) -> bool;

    /// The row count a successful decode of `group` yields.
    spec fn parsed_len(group: GroupNode) -> int;

    /// The abstract row count of a decoded table.
    spec fn spec_len(&self) -> int;

    /// Decode the table from its group.
    fn parse(group: &GroupNode) -> (r: Result<Self, ParseError>)
        ensures
            r is Ok <==> Self::parse_ok(*group),
            r matches Ok(v) ==> v.spec_len() == Self::parsed_len(*group),
    ;

    /// The number of observations (rows) of the table.
    fn len(&self) -> (n: usize)
        ensures
            n as int == self.spec_len(),
    ;

    /// Whether the table has no rows.
    fn is_empty(&self) -> (b: bool)
        ensures
            b == (self.spec_len() == 0),
    {
        self.len() == 0
    }
}

/// The variable annotation table of a file.
pub trait VarInAnnData: Sized {
    /// Whether `group` decodes successfully into this table type.
    spec fn parse_ok(group: GroupNode) -> bool;

    /// The row count a successful decode of `group` yields.
    spec fn parsed_len(group: GroupNode) -> int;

    /// The abstract row count of a decoded table.
    spec fn spec_len(&self) -> int;

    /// Decode the table from its group.
    fn parse(group: &GroupNode) -> (r: Result<Self, ParseError>)
        ensures
            r is Ok <==> Self::parse_ok(*group),
            r matches Ok(v) ==> v.spec_len() == Self::parsed_len(*group),
    ;

    /// The number of variables (rows) of the table.
    fn len(&self) -> (n: usize)
        ensures
            n as int == self.spec_len(),
    ;

    /// Whether the table has no rows.
    fn is_empty(&self) -> (b: bool)
        ensures
            b == (self.spec_len() == 0),
    {
        self.len() == 0
    }
}

/// The optional per-observation multidimensional block.
pub trait ObsmInAnnData: Sized {
    /// Whether `group` decodes successfully into this block type.
    spec fn parse_ok(group: GroupNode) -> bool;

    /// Decode the block from its group.
    fn parse(group: &GroupNode) -> (r: Result<Self, ParseError>)
        ensures
            r is Ok <==> Self::parse_ok(*group),
    ;
}

/// The optional per-variable multidimensional block.
pub trait VarmInAnnData: Sized {
    /// Whether `group` decodes successfully into this block type.
    spec fn parse_ok(group: GroupNode) -> bool;

    /// Decode the block from its group.
    fn parse(group: &GroupNode) -> (r: Result<Self, ParseError>)
        ensures
            r is Ok <==> Self::parse_ok(*group),
    ;
}

/// The optional observation-pairwise block.
pub trait ObspInAnnData: Sized {
    /// Whether `group` decodes successfully into this block type.
    spec fn parse_ok(group: GroupNode) -> bool;

    /// Decode the block from its group.
    fn parse(group: &GroupNode) -> (r: Result<Self, ParseError>)
        ensures
            r is Ok <==> Self::parse_ok(*group),
    ;
}

/// The optional variable-pairwise block.
pub trait VarmpInAnnData: Sized {
    /// Whether `group` decodes successfully into this block type.
    spec fn parse_ok(group: GroupNode) -> bool;

    /// Decode the block from its group.
    fn parse(group: &GroupNode) -> (r: Result<Self, ParseError>)
        ensures
            r is Ok <==> Self::parse_ok(*group),
    ;
}

/// The optional additional-matrix block.
pub trait LayersInAnnData: Sized {
    /// Whether `group` decodes successfully into this block type.
    spec fn parse_ok(group: GroupNode) -> bool;

    /// Decode the block from its group.
    fn parse(group: &GroupNode) -> (r: Result<Self, ParseError>)
        ensures
            r is Ok <==> Self::parse_ok(*group),
    ;
}

/// The primary data matrix of a file, sized by the annotation tables.
pub trait XInAnnData: Sized {
    /// Whether `group` decodes successfully at the given dimensions.
    spec fn parse_ok(group: GroupNode, n_obs: int, n_vars: int) -> bool;

    /// The decoded matrix's observation (row) count.
    spec fn spec_rows(&self) -> int;

    /// The decoded matrix's variable (column) count.
    spec fn spec_cols(&self) -> int;

    /// Decode the matrix from its group at the given dimensions.
    fn parse(group: &GroupNode, n_obs: usize, n_vars: usize) -> (r: Result<Self, ParseError>)
        ensures
            r is Ok <==> Self::parse_ok(*group, n_obs as int, n_vars as int),
            r matches Ok(x) ==> x.spec_rows() == n_obs as int && x.spec_cols() == n_vars as int,
    ;
}

/// When a whole file parses: the required obs, var and X sections must all
/// be present and decodable, with X sized by the two tables' row counts.
pub open spec fn anndata_parse_ok<P: ObsInAnnData, Q: VarInAnnData, W: XInAnnData>(
    root: GroupNode,
) -> bool {
    let obs_g = spec_find_group(root, "obs"@);
    let var_g = spec_find_group(root, "var"@);
    let x_g = spec_find_group(root, "X"@);
    &&& obs_g is Some
    &&& P::parse_ok(obs_g.unwrap())
    &&& var_g is Some
    &&& Q::parse_ok(var_g.unwrap())
    &&& x_g is Some
    &&& W::parse_ok(x_g.unwrap(), P::parsed_len(obs_g.unwrap()), Q::parsed_len(var_g.unwrap()))
}

/// One fully decoded annotated-matrix file: the two required annotation
/// tables, five optional blocks, and the primary matrix.
#[derive(Debug)]
pub struct AnnData<P, Q, R, S, T, U, V, W> where
    P: ObsInAnnData,
    Q: VarInAnnData,
    R: ObsmInAnnData,
    S: VarmInAnnData,
    T: ObspInAnnData,
    U: VarmpInAnnData,
    V: LayersInAnnData,
    W: XInAnnData,
 {
    pub obs: P,
    pub var: Q,
    pub obsm: Option<R>,
    pub varm: Option<S>,
    pub obsp: Option<T>,
    pub varmp: Option<U>,
    pub layers: Option<V>,
    pub x: W,
}

impl<P, Q, R, S, T, U, V, W> AnnData<P, Q, R, S, T, U, V, W> where
    P: ObsInAnnData,
    Q: VarInAnnData,
    R: ObsmInAnnData,
    S: VarmInAnnData,
    T: ObspInAnnData,
    U: VarmpInAnnData,
    V: LayersInAnnData,
    W: XInAnnData,
 {
    /// Parse a whole file from its root group.
    ///
    /// obs and var are decoded first and their failures abort the parse; each
    /// optional block's failure, including a missing group, is downgraded to
    /// an absent block; X is decoded last, sized by the obs and var row
    /// counts, and its failure aborts the parse. On success the matrix
    /// dimensions equal the two tables' row counts.
    pub fn parse(contents: &GroupNode) -> (r: Result<Self, ParseError>)
        ensures
            r is Ok <==> anndata_parse_ok::<P, Q, W>(*contents),
            r matches Ok(a) ==> {
                &&& a.x.spec_rows() == a.obs.spec_len()
                &&& a.x.spec_cols() == a.var.spec_len()
                &&& a.obs.spec_len() == P::parsed_len(
                    spec_find_group(*contents, "obs"@).unwrap(),
                )
                &&& a.var.spec_len() == Q::parsed_len(
                    spec_find_group(*contents, "var"@).unwrap(),
                )
                &&& (a.obsm is Some <==> (spec_find_group(*contents, "obsm"@) matches Some(g)
                    && R::parse_ok(g)))
                &&& (a.varm is Some <==> (spec_find_group(*contents, "varm"@) matches Some(g)
                    && S::parse_ok(g)))
                &&& (a.obsp is Some <==> (spec_find_group(*contents, "obsp"@) matches Some(g)
                    && T::parse_ok(g)))
                &&& (a.varmp is Some <==> (spec_find_group(*contents, "varmp"@) matches Some(g)
                    && U::parse_ok(g)))
                &&& (a.layers is Some <==> (spec_find_group(*contents, "layers"@) matches Some(g)
                    && V::parse_ok(g)))
            },
            spec_find_group(*contents, "obs"@) is None ==> (r matches Err(
                ParseError::ContainerAccessFailure(m),
            ) && m@ == "obs"@),
            (spec_find_group(*contents, "obs"@) matches Some(g) && P::parse_ok(g)
                && spec_find_group(*contents, "var"@) is None) ==> (r matches Err(
                ParseError::ContainerAccessFailure(m),
            ) && m@ == "var"@),
            ((spec_find_group(*contents, "obs"@) matches Some(g) && P::parse_ok(g))
                && (spec_find_group(*contents, "var"@) matches Some(h) && Q::parse_ok(h))
                && spec_find_group(*contents, "X"@) is None) ==> (r matches Err(
                ParseError::ContainerAccessFailure(m),
            ) && m@ == "X"@),
    {
        let obs_group = match contents.group("obs") {
            Ok(g) => g,
            Err(e) => { return Err(e) },
        };
        let obs = match P::parse(obs_group) {
            Ok(o) => o,
            Err(e) => { return Err(e) },
        };
        let var_group = match contents.group("var") {
            Ok(g) => g,
            Err(e) => { return Err(e) },
        };
        let var = match Q::parse(var_group) {
            Ok(v) => v,
            Err(e) => { return Err(e) },
        };
        let obsm = match contents.group("obsm") {
            Ok(g) => match R::parse(g) {
                Ok(v) => Some(v),
                Err(_) => None,
            },
            Err(_) => None,
        };
        let varm = match contents.group("varm") {
            Ok(g) => match S::parse(g) {
                Ok(v) => Some(v),
                Err(_) => None,
            },
            Err(_) => None,
        };
        let obsp = match contents.group("obsp") {
            Ok(g) => match T::parse(g) {
                Ok(v) => Some(v),
                Err(_) => None,
            },
            Err(_) => None,
        };
        let varmp = match contents.group("varmp") {
            Ok(g) => match U::parse(g) {
                Ok(v) => Some(v),
                Err(_) => None,
            },
            Err(_) => None,
        };
        let layers = match contents.group("layers") {
            Ok(g) => match V::parse(g) {
                Ok(v) => Some(v),
                Err(_) => None,
            },
            Err(_) => None,
        };
        let n_obs = obs.len();
        let n_vars = var.len();
        let x = match contents.group("X") {
            Ok(g) => match W::parse(g, n_obs, n_vars) {
                Ok(x) => x,
                Err(e) => { return Err(e) },
            },
            Err(e) => { return Err(e) },
        };
        Ok(
            AnnData {
                obs,
                var,
                obsm,
                varm,
                obsp,
                varmp,
                layers,
                x,
            },
        )
    }
}

} // verus!
