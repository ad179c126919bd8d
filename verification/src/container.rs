//! An in-memory snapshot of the hierarchical binary container: named groups
//! nesting named, typed datasets.
//!
//! The caller walks the on-disk file once and hands the decoders this plain
//! value; every lookup and typed read below is specified exactly, so the
//! decoders' contracts can name what a group holds.
use vstd::prelude::*;

use crate::error::ParseError;

verus! {

/// The raw contents of one dataset, in one of the element types the
/// container can store. Single-precision numeric payloads are carried by
/// their bit pattern and never interpreted arithmetically here.
#[derive(Debug, Clone)]
pub enum DatasetBuffer {
    Strings(Vec<String>),
    Bools(Vec<bool>),
    UInts(Vec<u64>),
    Numerics(Vec<u32>),
}

/// A named dataset inside a group.
#[derive(Debug, Clone)]
pub struct DatasetNode {
    pub name: String,
    pub buffer: DatasetBuffer,
}

/// A named child group inside a group.
#[derive(Debug)]
pub struct NamedGroup {
    pub name: String,
    pub group: GroupNode,
}

/// One group of the container: a bag of named datasets and named subgroups.
/// The root of a file is itself a `GroupNode`.
#[derive(Debug)]
pub struct GroupNode {
    pub datasets: Vec<DatasetNode>,
    pub groups: Vec<NamedGroup>,
}

/// The first child group named `name` at position `i` or later, if any.
pub open spec fn find_group_from(s: Seq<NamedGroup>, name: Seq<char>, i: int) -> Option<GroupNode>
    decreases s.len() - i,
{
    if i < 0 || i >= s.len() {
        None
    } else if s[i].name@ == name {
        Some(s[i].group)
    } else {
        find_group_from(s, name, i + 1)
    }
}

/// The first dataset named `name` at position `i` or later, if any.
pub open spec fn find_dataset_from(s: Seq<DatasetNode>, name: Seq<char>, i: int) -> Option<DatasetNode>
    decreases s.len() - i,
{
    if i < 0 || i >= s.len() {
        None
    } else if s[i].name@ == name {
        Some(s[i])
    } else {
        find_dataset_from(s, name, i + 1)
    }
}

/// The child group of `g` named `name`, if any.
pub open spec fn spec_find_group(g: GroupNode, name: Seq<char>) -> Option<GroupNode> {
    find_group_from(g.groups@, name, 0)
}

/// The dataset of `g` named `name`, if any.
pub open spec fn spec_find_dataset(g: GroupNode, name: Seq<char>) -> Option<DatasetNode> {
    find_dataset_from(g.datasets@, name, 0)
}

/// The dataset of `g` named `name` read as strings: present exactly when the
/// dataset exists and holds strings.
pub open spec fn spec_strings(g: GroupNode, name: Seq<char>) -> Option<Seq<Seq<char>>> {
    match spec_find_dataset(g, name) {
        Some(d) => match d.buffer {
            DatasetBuffer::Strings(v) => Some(v@.map_values(|s: String| s@)),
            _ => None,
        },
        None => None,
    }
}

/// The dataset of `g` named `name` read as booleans.
pub open spec fn spec_bools(g: GroupNode, name: Seq<char>) -> Option<Seq<bool>> {
    match spec_find_dataset(g, name) {
        Some(d) => match d.buffer {
            DatasetBuffer::Bools(v) => Some(v@),
            _ => None,
        },
        None => None,
    }
}

/// The dataset of `g` named `name` read as unsigned integers.
pub open spec fn spec_uints(g: GroupNode, name: Seq<char>) -> Option<Seq<u64>> {
    match spec_find_dataset(g, name) {
        Some(d) => match d.buffer {
            DatasetBuffer::UInts(v) => Some(v@),
            _ => None,
        },
        None => None,
    }
}

/// The dataset of `g` named `name` read as numeric bit patterns.
pub open spec fn spec_numerics(g: GroupNode, name: Seq<char>) -> Option<Seq<u32>> {
    match spec_find_dataset(g, name) {
        Some(d) => match d.buffer {
            DatasetBuffer::Numerics(v) => Some(v@),
            _ => None,
        },
        None => None,
    }
}

impl DatasetNode {
    /// This dataset's contents as strings, or the access failure a caller
    /// reports when the stored element type is something else.
    pub fn read_strings(&self) -> (r: Result<&Vec<String>, ParseError>)
        ensures
            match r {
                Ok(v) => self.buffer matches DatasetBuffer::Strings(w) && w == *v,
                Err(e) => {
                    &&& !(self.buffer matches DatasetBuffer::Strings(_))
                    &&& e matches ParseError::ContainerAccessFailure(m) && m@ == self.name@
                },
            },
    {
        match &self.buffer {
            DatasetBuffer::Strings(v) => Ok(v),
            _ => Err(ParseError::ContainerAccessFailure(self.name.clone())),
        }
    }

    /// This dataset's contents as booleans, or an access failure.
    pub fn read_bools(&self) -> (r: Result<&Vec<bool>, ParseError>)
        ensures
            match r {
                Ok(v) => self.buffer matches DatasetBuffer::Bools(w) && w == *v,
                Err(e) => {
                    &&& !(self.buffer matches DatasetBuffer::Bools(_))
                    &&& e matches ParseError::ContainerAccessFailure(m) && m@ == self.name@
                },
            },
    {
        match &self.buffer {
            DatasetBuffer::Bools(v) => Ok(v),
            _ => Err(ParseError::ContainerAccessFailure(self.name.clone())),
        }
    }

    /// This dataset's contents as unsigned integers, or an access failure.
    pub fn read_uints(&self) -> (r: Result<&Vec<u64>, ParseError>)
        ensures
            match r {
                Ok(v) => self.buffer matches DatasetBuffer::UInts(w) && w == *v,
                Err(e) => {
                    &&& !(self.buffer matches DatasetBuffer::UInts(_))
                    &&& e matches ParseError::ContainerAccessFailure(m) && m@ == self.name@
                },
            },
    {
        match &self.buffer {
            DatasetBuffer::UInts(v) => Ok(v),
            _ => Err(ParseError::ContainerAccessFailure(self.name.clone())),
        }
    }

    /// This dataset's contents as numeric bit patterns, or an access failure.
    pub fn read_numerics(&self) -> (r: Result<&Vec<u32>, ParseError>)
        ensures
            match r {
                Ok(v) => self.buffer matches DatasetBuffer::Numerics(w) && w == *v,
                Err(e) => {
                    &&& !(self.buffer matches DatasetBuffer::Numerics(_))
                    &&& e matches ParseError::ContainerAccessFailure(m) && m@ == self.name@
                },
            },
    {
        match &self.buffer {
            DatasetBuffer::Numerics(v) => Ok(v),
            _ => Err(ParseError::ContainerAccessFailure(self.name.clone())),
        }
    }
}

impl GroupNode {
    /// The child group named `name`, or an access failure carrying that name.
    pub fn group(&self, name: &str) -> (r: Result<&GroupNode, ParseError>)
        ensures
            match r {
                Ok(g) => spec_find_group(*self, name@) == Some(*g),
                Err(e) => {
                    &&& spec_find_group(*self, name@) is None
                    &&& e matches ParseError::ContainerAccessFailure(m) && m@ == name@
                },
            },
    {
        let key: String = name.to_owned();
        let n: usize = self.groups.len();
        let mut i: usize = 0;
        while i < n
            invariant
                n == self.groups@.len(),
                i <= n,
                key@ == name@,
                find_group_from(self.groups@, name@, 0) == find_group_from(
                    self.groups@,
                    name@,
                    i as int,
                ),
            decreases n - i,
        {
            if self.groups[i].name == key {
                return Ok(&self.groups[i].group);
            }
            i += 1;
        }
        Err(ParseError::ContainerAccessFailure(key))
    }

    /// The dataset named `name`, or an access failure carrying that name.
    pub fn dataset(&self, name: &str) -> (r: Result<&DatasetNode, ParseError>)
        ensures
            match r {
                Ok(d) => spec_find_dataset(*self, name@) == Some(*d) && d.name@ == name@,
                Err(e) => {
                    &&& spec_find_dataset(*self, name@) is None
                    &&& e matches ParseError::ContainerAccessFailure(m) && m@ == name@
                },
            },
    {
        let key: String = name.to_owned();
        let n: usize = self.datasets.len();
        let mut i: usize = 0;
        while i < n
            invariant
                n == self.datasets@.len(),
                i <= n,
                key@ == name@,
                find_dataset_from(self.datasets@, name@, 0) == find_dataset_from(
                    self.datasets@,
                    name@,
                    i as int,
                ),
            decreases n - i,
        {
            if self.datasets[i].name == key {
                return Ok(&self.datasets[i]);
            }
            i += 1;
        }
        Err(ParseError::ContainerAccessFailure(key))
    }

    /// The dataset named `name` read as strings; fails, carrying that name,
    /// when the dataset is missing or holds another element type.
    pub fn strings(&self, name: &str) -> (r: Result<&Vec<String>, ParseError>)
        ensures
            match r {
                Ok(v) => spec_strings(*self, name@) == Some(v@.map_values(|s: String| s@)),
                Err(e) => {
                    &&& spec_strings(*self, name@) is None
                    &&& e matches ParseError::ContainerAccessFailure(m) && m@ == name@
                },
            },
    {
        match self.dataset(name) {
            Ok(d) => d.read_strings(),
            Err(e) => Err(e),
        }
    }

    /// The dataset named `name` read as booleans, as `strings` does.
    pub fn bools(&self, name: &str) -> (r: Result<&Vec<bool>, ParseError>)
        ensures
            match r {
                Ok(v) => spec_bools(*self, name@) == Some(v@),
                Err(e) => {
                    &&& spec_bools(*self, name@) is None
                    &&& e matches ParseError::ContainerAccessFailure(m) && m@ == name@
                },
            },
    {
        match self.dataset(name) {
            Ok(d) => d.read_bools(),
            Err(e) => Err(e),
        }
    }

    /// The dataset named `name` read as unsigned integers, as `strings` does.
    pub fn uints(&self, name: &str) -> (r: Result<&Vec<u64>, ParseError>)
        ensures
            match r {
                Ok(v) => spec_uints(*self, name@) == Some(v@),
                Err(e) => {
                    &&& spec_uints(*self, name@) is None
                    &&& e matches ParseError::ContainerAccessFailure(m) && m@ == name@
                },
            },
    {
        match self.dataset(name) {
            Ok(d) => d.read_uints(),
            Err(e) => Err(e),
        }
    }

    /// The dataset named `name` read as numeric bit patterns, as `strings`
    /// does.
    pub fn numerics(&self, name: &str) -> (r: Result<&Vec<u32>, ParseError>)
        ensures
            match r {
                Ok(v) => spec_numerics(*self, name@) == Some(v@),
                Err(e) => {
                    &&& spec_numerics(*self, name@) is None
                    &&& e matches ParseError::ContainerAccessFailure(m) && m@ == name@
                },
            },
    {
        match self.dataset(name) {
            Ok(d) => d.read_numerics(),
            Err(e) => Err(e),
        }
    }
}

/// An owned copy of a borrowed string column.
pub fn clone_strings(v: &Vec<String>) -> (r: Vec<String>)
    ensures
        r@ == v@,
{
    let mut r: Vec<String> = Vec::new();
    let mut i: usize = 0;
    while i < v.len()
        invariant
            i <= v@.len(),
            r@.len() == i,
            forall|j: int| 0 <= j < i ==> (#[trigger] r@[j]) == v@[j],
        decreases v@.len() - i,
    {
        r.push(v[i].clone());
        i += 1;
    }
    assert(r@ =~= v@);
    r
}

/// An owned copy of a borrowed boolean column.
pub fn clone_bools(v: &Vec<bool>) -> (r: Vec<bool>)
    ensures
        r@ == v@,
{
    let mut r: Vec<bool> = Vec::new();
    let mut i: usize = 0;
    while i < v.len()
        invariant
            i <= v@.len(),
            r@.len() == i,
            forall|j: int| 0 <= j < i ==> (#[trigger] r@[j]) == v@[j],
        decreases v@.len() - i,
    {
        r.push(v[i]);
        i += 1;
    }
    assert(r@ =~= v@);
    r
}

} // verus!
