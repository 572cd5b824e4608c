//! The directive descriptor handed to the pipelines.

use crate::path::{DirPath, PathView};
use vstd::prelude::*;

verus! {

/// The abstract value of an [`AssetInput`].
pub struct AssetInputView {
    pub id: int,
    pub manifest_dir: PathView,
    pub attrs: Seq<(Seq<char>, Seq<char>)>,
}

/// One build directive extracted from the document: the identity of the
/// originating element, the directory against which relative paths are
/// resolved, and the directive's attributes in order.
#[derive(Debug)]
pub struct AssetInput {
    /// Identifies the originating element within the document.
    pub id: usize,
    /// The base directory for relative paths in attributes.
    pub manifest_dir: DirPath,
    /// The directive's attributes: name and value, in order.
    pub attrs: Vec<(String, String)>,
}

impl View for AssetInput {
    type V = AssetInputView;

    open spec fn view(&self) -> AssetInputView {
        AssetInputView {
            id: self.id as int,
            manifest_dir: self.manifest_dir@,
            attrs: self.attrs.deep_view(),
        }
    }
}

/// The value of the first attribute called `name`, if any.
pub open spec fn attr_lookup(attrs: Seq<(Seq<char>, Seq<char>)>, name: Seq<char>) -> Option<
    Seq<char>,
>
    decreases attrs.len(),
{
    if attrs.len() == 0 {
        None
    } else if attrs[0].0 == name {
        Some(attrs[0].1)
    } else {
        attr_lookup(attrs.drop_first(), name)
    }
}

impl AssetInput {
    /// A directive with no attributes yet.
    pub fn new(id: usize, manifest_dir: DirPath) -> (r: Self)
        ensures
            r@.id == id as int,
            r@.manifest_dir == manifest_dir@,
            r@.attrs == Seq::<(Seq<char>, Seq<char>)>::empty(),
    {
        let r = AssetInput { id, manifest_dir, attrs: Vec::new() };
        proof {
            assert(r@.attrs =~= Seq::<(Seq<char>, Seq<char>)>::empty());
        }
        r
    }

    /// Appends one attribute.
    pub fn push_attr(&mut self, name: String, value: String)
        ensures
            final(self)@.id == old(self)@.id,
            final(self)@.manifest_dir == old(self)@.manifest_dir,
            final(self)@.attrs == old(self)@.attrs.push((name@, value@)),
    {
        self.attrs.push((name, value));
        proof {
            assert(self@.attrs =~= old(self)@.attrs.push((name@, value@)));
        }
    }

    /// The value of the first attribute called `name`, if any.
    pub fn attr(&self, name: &str) -> (r: Option<&String>)
        ensures
            match r {
                Some(v) => attr_lookup(self@.attrs, name@) == Some(v@),
                None => attr_lookup(self@.attrs, name@) is None,
            },
    {
        let n = self.attrs.len();
        let mut i: usize = 0;
        proof {
            assert(self@.attrs.skip(0) =~= self@.attrs);
        }
        while i < n
            invariant
                i <= n,
                n == self.attrs.len(),
                attr_lookup(self@.attrs.skip(i as int), name@) == attr_lookup(self@.attrs, name@),
            decreases n - i,
        {
            let ghost rest = self@.attrs.skip(i as int);
            proof {
                assert(rest[0] == self@.attrs[i as int]);
                assert(rest.drop_first() =~= self@.attrs.skip(i as int + 1));
            }
            if crate::path::str_eq(self.attrs[i].0.as_str(), name) {
                return Some(&self.attrs[i].1);
            }
            i += 1;
        }
        proof {
            assert(self@.attrs.skip(n as int) =~= Seq::<(Seq<char>, Seq<char>)>::empty());
        }
        None
    }
}

} // verus!
