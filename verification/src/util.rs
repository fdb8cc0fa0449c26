//! Small helpers around the site: how much memory a value holds, and how the
//! components of a path are joined.

use crate::content_type::ContentType;
use crate::text::{append_chars, chars_of, string_of};
use vstd::prelude::*;

verus! {

/// A size as a `usize` can hold it: held at the largest `usize` where it
/// would pass it.
pub open spec fn capped(size: nat) -> nat {
    if size > usize::MAX {
        usize::MAX as nat
    } else {
        size
    }
}

/// The number of payload bytes that a value keeps in memory.
pub trait TotalSize {
    /// The size, in bytes.
    spec fn size(&self) -> nat;

    /// Computes the size; a size beyond `usize` is reported as the largest
    /// `usize`.
    fn total_size(&self) -> (n: usize)
        ensures
            n == capped(self.size()),
    ;
}

impl TotalSize for ContentType {
    open spec fn size(&self) -> nat {
        1
    }

    fn total_size(&self) -> (n: usize) {
        1
    }
}

impl TotalSize for Vec<u8> {
    open spec fn size(&self) -> nat {
        self@.len()
    }

    fn total_size(&self) -> (n: usize) {
        self.len()
    }
}

/// The components of a path joined by `/`.
pub open spec fn joined(components: Seq<Seq<char>>) -> Seq<char>
    decreases components.len(),
{
    if components.len() == 0 {
        Seq::empty()
    } else if components.len() == 1 {
        components[0]
    } else {
        joined(components.drop_last()) + seq!['/'] + components.last()
    }
}

/// The texts of a list of strings, in order.
pub open spec fn texts(strings: Seq<String>) -> Seq<Seq<char>> {
    Seq::new(strings.len(), |i: int| strings[i]@)
}

/// The root-relative path of a file from the components of its path below
/// the root: whatever separator the platform uses, the site's is `/`.
pub fn relative_path(components: &Vec<String>) -> (path: String)
    ensures
        path@ == joined(texts(components@)),
{
    let mut path: Vec<char> = Vec::new();
    let mut i: usize = 0;
    let ghost all = texts(components@);
    assert(all.subrange(0, 0) == Seq::<Seq<char>>::empty());
    while i < components.len()
        invariant
            i <= components.len(),
            all == texts(components@),
            path@ == joined(all.subrange(0, i as int)),
        decreases components.len() - i,
    {
        let ghost done = all.subrange(0, i as int);
        assert(all.subrange(0, i + 1).drop_last() == done);
        assert(all.subrange(0, i + 1).last() == components@[i as int]@);
        if i > 0 {
            path.push('/');
        } else {
            assert(all.subrange(0, i + 1)[0] == components@[i as int]@);
        }
        let part = chars_of(components[i].as_str());
        append_chars(&mut path, part.as_slice());
        i += 1;
    }
    assert(all.subrange(0, i as int) == all);
    string_of(&path)
}

} // verus!
