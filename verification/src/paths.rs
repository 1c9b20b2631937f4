//! Paths as plain slash-separated character strings.  The file system is
//! never touched here: callers resolve and join names, and whoever performs
//! the actual reads converts these values to platform paths.

use vstd::prelude::*;

verus! {

/// `root` and `rel` joined with a single separator.
pub open spec fn join_spec(root: Seq<char>, rel: Seq<char>) -> Seq<char> {
    if root.len() == 0 {
        rel
    } else if root.last() == '/' {
        root + rel
    } else {
        root + seq!['/'] + rel
    }
}

/// Everything up to (excluding) the last separator; empty when there is
/// no separator.
pub open spec fn parent_spec(p: Seq<char>) -> Seq<char>
    decreases p.len(),
{
    if p.len() == 0 {
        Seq::empty()
    } else if p.last() == '/' {
        p.drop_last()
    } else {
        parent_spec(p.drop_last())
    }
}

/// Join two path strings.
pub fn path_join(root: &Vec<char>, rel: &Vec<char>) -> (r: Vec<char>)
    ensures
        r@ == join_spec(root@, rel@),
{
    let mut r: Vec<char> = Vec::new();
    let mut i: usize = 0;
    while i < root.len()
        invariant
            i <= root@.len(),
            r@ == root@.subrange(0, i as int),
        decreases root@.len() - i,
    {
        r.push(root[i]);
        i += 1;
        assert(r@ =~= root@.subrange(0, i as int));
    }
    assert(r@ =~= root@);
    if root.len() > 0 && root[root.len() - 1] != '/' {
        r.push('/');
    }
    let mut j: usize = 0;
    let ghost base = r@;
    while j < rel.len()
        invariant
            j <= rel@.len(),
            r@ == base + rel@.subrange(0, j as int),
        decreases rel@.len() - j,
    {
        r.push(rel[j]);
        j += 1;
        assert(r@ =~= base + rel@.subrange(0, j as int));
    }
    proof {
        assert(rel@.subrange(0, rel@.len() as int) =~= rel@);
        if root@.len() == 0 {
            assert(r@ =~= rel@);
        } else if root@.last() == '/' {
            assert(r@ =~= root@ + rel@);
        } else {
            assert(r@ =~= root@ + seq!['/'] + rel@);
        }
    }
    r
}

/// The parent directory of a path string.
pub fn path_parent(p: &Vec<char>) -> (r: Vec<char>)
    ensures
        r@ == parent_spec(p@),
{
    let mut e: usize = p.len();
    assert(p@.subrange(0, e as int) =~= p@);
    while e > 0 && p[e - 1] != '/'
        invariant
            e <= p@.len(),
            parent_spec(p@) == parent_spec(p@.subrange(0, e as int)),
        decreases e,
    {
        proof {
            let t = p@.subrange(0, e as int);
            assert(t.last() == p@[e - 1]);
            assert(t.drop_last() =~= p@.subrange(0, e - 1));
        }
        e -= 1;
    }
    if e == 0 {
        let r: Vec<char> = Vec::new();
        assert(parent_spec(p@.subrange(0, 0)) =~= Seq::<char>::empty());
        assert(r@ =~= parent_spec(p@));
        r
    } else {
        proof {
            let t = p@.subrange(0, e as int);
            assert(t.last() == p@[e - 1]);
            assert(t.drop_last() =~= p@.subrange(0, e - 1));
        }
        crate::text::range_text(p, 0, e - 1)
    }
}

} // verus!
