//! Paths of field accesses into reflected data, and their textual form.

use vstd::prelude::*;
use crate::text::{decimal, decimal_string};

verus! {

/// Access into reflected data types.
#[derive(Debug, Clone, Copy, PartialEq, Eq)]
pub enum Access {
    /// Fields in structs.
    Field(&'static str),
    /// Fields in tuples or tuple structs.
    TupleIndex(usize),
    /// Elements in lists.
    ListIndex(usize),
}

/// Textual form of an access: the field name, the tuple index, or the list index in brackets.
pub open spec fn access_text(a: Access) -> Seq<char> {
    match a {
        Access::Field(f) => f@,
        Access::TupleIndex(k) => decimal(k as nat),
        Access::ListIndex(k) => seq!['['] + decimal(k as nat) + seq![']'],
    }
}

impl Access {
    /// Textual form of this access, as its `Display` writes it.
    pub fn to_string(&self) -> (s: String)
        ensures
            s@ == access_text(*self),
    {
        match self {
            Access::Field(f) => String::from_str(f),
            Access::TupleIndex(k) => decimal_string(*k),
            Access::ListIndex(k) => {
                proof {
                    reveal_strlit("[");
                    reveal_strlit("]");
                }
                let mut s = String::from_str("[");
                let d = decimal_string(*k);
                s.append(d.as_str());
                s.append("]");
                s
            },
        }
    }
}

/// Whole path for access into reflected data types.
#[derive(Debug, Clone, Copy, PartialEq, Eq)]
pub struct FieldPath(pub &'static [Access]);

/// Textual form of a path: the accesses, separated by dots.
pub open spec fn path_text(path: Seq<Access>) -> Seq<char>
    decreases path.len(),
{
    if path.len() == 0 {
        Seq::empty()
    } else if path.len() == 1 {
        access_text(path[0])
    } else {
        path_text(path.drop_last()) + seq!['.'] + access_text(path.last())
    }
}

impl FieldPath {
    /// Truncate this field path to only preserve the first `n` [`Access`] segments.
    pub fn truncate(self, n: usize) -> (p: FieldPath)
        requires
            n <= self.0@.len(),
        ensures
            p.0@ == self.0@.take(n as int),
    {
        FieldPath(vstd::slice::slice_subrange(self.0, 0, n))
    }

    /// Textual form of this path, as its `Display` writes it.
    pub fn to_string(&self) -> (s: String)
        ensures
            s@ == path_text(self.0@),
    {
        let mut s = String::new();
        let mut i: usize = 0;
        while i < self.0.len()
            invariant
                i <= self.0@.len(),
                s@ == path_text(self.0@.take(i as int)),
            decreases self.0@.len() - i,
        {
            let part = self.0[i].to_string();
            assert(self.0@.take(i + 1).drop_last() =~= self.0@.take(i as int));
            if i > 0 {
                proof {
                    reveal_strlit(".");
                }
                s.append(".");
            }
            s.append(part.as_str());
            assert(s@ =~= path_text(self.0@.take(i + 1)));
            i = i + 1;
        }
        assert(self.0@.take(i as int) =~= self.0@);
        s
    }
}

} // verus!
