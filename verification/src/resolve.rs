//! Confining a canonicalized request path to the served root.
//!
//! The surrounding program joins the root and the request URI and asks the
//! filesystem to canonicalize the result; it hands this library the
//! canonical root, the canonicalization outcome, and the kind of the
//! resolved entry. This module decides whether the canonical path lies
//! within the root: a failed canonicalization or a path outside the root
//! is rejected as not found, so a traversal can never reach a resource
//! outside the served tree.

use vstd::prelude::*;

use crate::bytes::SLASH;

verus! {

/// What the filesystem says a canonical path is.
#[derive(Copy, Clone, PartialEq, Eq, Structural, Debug)]
pub enum PathKind {
    /// A directory, answered with a listing.
    Directory,
    /// A regular file, answered with its bytes.
    File,
    /// Anything else (device, socket, ...), answered with BAD_REQUEST.
    Other,
}

/// Whether the canonical path `path` lies within the canonical root
/// directory `root`: it is the root itself, or continues the root at a
/// path-component boundary.
pub open spec fn within_root(root: Seq<u8>, path: Seq<u8>) -> bool {
    ||| path == root
    ||| (root.len() > 0 && root.last() == SLASH && root.is_prefix_of(path))
    ||| (path.len() > root.len() && path.subrange(0, root.len() as int) == root && path[root.len() as int] == SLASH)
}

/// What resolution accepts: a canonical path within the root keeps its
/// kind; a failed canonicalization or an escaping path is rejected.
pub open spec fn spec_resolve(root: Seq<u8>, canonical: Option<(Seq<u8>, PathKind)>) -> Option<
    (Seq<u8>, PathKind),
> {
    match canonical {
        None => None,
        Some(pk) => if within_root(root, pk.0) {
            Some(pk)
        } else {
            None
        },
    }
}

/// The kind of the resource that resolution accepted, if it accepted one.
pub open spec fn resolved_kind(root: Seq<u8>, canonical: Option<(Seq<u8>, PathKind)>) -> Option<
    PathKind,
> {
    match spec_resolve(root, canonical) {
        Some(pk) => Some(pk.1),
        None => None,
    }
}

/// A canonical path outside the root is never accepted by resolution.
pub proof fn lemma_traversal_rejected(root: Seq<u8>, path: Seq<u8>, kind: PathKind)
    requires
        !within_root(root, path),
    ensures
        spec_resolve(root, Some((path, kind))) is None,
{
}

/// Whether `root` is a prefix of `path`.
fn is_prefix(root: &Vec<u8>, path: &Vec<u8>) -> (r: bool)
    ensures
        r == root@.is_prefix_of(path@),
{
    if path.len() < root.len() {
        return false;
    }
    let mut i: usize = 0;
    while i < root.len()
        invariant
            i <= root.len() <= path.len(),
            forall|j: int| 0 <= j < i ==> root@[j] == path@[j],
        decreases root.len() - i,
    {
        if root[i] != path[i] {
            return false;
        }
        i = i + 1;
    }
    proof {
        assert(path@.subrange(0, root@.len() as int) =~= root@);
    }
    true
}

/// Decides containment of a canonical path in the canonical root.
pub fn is_within_root(root: &Vec<u8>, path: &Vec<u8>) -> (r: bool)
    ensures
        r == within_root(root@, path@),
{
    if !is_prefix(root, path) {
        proof {
            if path@ == root@ {
                assert(path@.subrange(0, root@.len() as int) =~= root@);
            }
            if path@.len() > root@.len() && path@.subrange(0, root@.len() as int) == root@ {
                assert(root@.is_prefix_of(path@));
            }
        }
        return false;
    }
    if path.len() == root.len() {
        proof {
            assert(path@ =~= root@);
        }
        return true;
    }
    if root.len() > 0 && root[root.len() - 1] == SLASH {
        return true;
    }
    path[root.len()] == SLASH
}

} // verus!
