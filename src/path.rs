use vstd::prelude::*;
use vstd::slice::slice_to_vec;

verus! {

/// The separator between the segments of a path.
pub const SLASH: u8 = 47;

/// A path with runs of separators collapsed: one separator before each
/// non-empty segment, and none at the end.
pub open spec fn collapse(s: Seq<u8>) -> Seq<u8>
    decreases s.len(),
{
    if s.len() == 0 {
        Seq::empty()
    } else {
        let init = s.drop_last();
        let b = s.last();
        if b == SLASH {
            collapse(init)
        } else if init.len() == 0 || init.last() == SLASH {
            collapse(init) + seq![SLASH, b]
        } else {
            collapse(init).push(b)
        }
    }
}

/// The path of a route mounted under `prefix`: the non-empty segments of both,
/// in order, each after one separator; the root `/` where there are none.
pub open spec fn joined_path(prefix: Seq<u8>, path: Seq<u8>) -> Seq<u8> {
    let c = collapse(prefix + seq![SLASH] + path);
    if c.len() == 0 {
        seq![SLASH]
    } else {
        c
    }
}

/// A path that starts with a separator, never holds two in a row, and ends
/// with one only where it is the root `/`.
pub open spec fn well_separated(r: Seq<u8>) -> bool {
    &&& r.len() > 0
    &&& r[0] == SLASH
    &&& forall|i: int| 0 <= i < r.len() - 1 ==> !(#[trigger] r[i] == SLASH && r[i + 1] == SLASH)
    &&& r.len() > 1 ==> r.last() != SLASH
}

/// Joins `prefix` and `path` with single separators, dropping empty segments.
pub fn join_paths(prefix: &[u8], path: &[u8]) -> (r: Vec<u8>)
    ensures
        r@ == joined_path(prefix@, path@),
{
    let mut all: Vec<u8> = slice_to_vec(prefix);
    all.push(SLASH);
    let mut k: usize = 0;
    while k < path.len()
        invariant
            k <= path@.len(),
            all@ == prefix@ + seq![SLASH] + path@.take(k as int),
        decreases path@.len() - k,
    {
        all.push(path[k]);
        assert(path@.take(k as int + 1) =~= path@.take(k as int).push(path@[k as int]));
        k = k + 1;
    }
    assert(path@.take(path@.len() as int) =~= path@);
    let mut out: Vec<u8> = Vec::new();
    let mut i: usize = 0;
    while i < all.len()
        invariant
            i <= all@.len(),
            all@ == prefix@ + seq![SLASH] + path@,
            out@ == collapse(all@.take(i as int)),
        decreases all@.len() - i,
    {
        let b = all[i];
        assert(all@.take(i as int + 1).drop_last() =~= all@.take(i as int));
        if b == SLASH {
        } else if i == 0 || all[i - 1] == SLASH {
            out.push(SLASH);
            out.push(b);
        } else {
            out.push(b);
        }
        i = i + 1;
    }
    assert(all@.take(all@.len() as int) =~= all@);
    if out.len() == 0 {
        out.push(SLASH);
    }
    out
}

/// What `collapse` gives is empty or well separated; on a path that ends in a
/// segment byte it ends in that byte.
pub proof fn lemma_collapse_shape(s: Seq<u8>)
    ensures
        collapse(s).len() == 0 || well_separated(collapse(s)),
        collapse(s).len() > 0 ==> collapse(s).last() != SLASH,
        s.len() > 0 && s.last() != SLASH ==> collapse(s).len() > 0 && collapse(s).last()
            == s.last(),
    decreases s.len(),
{
    if s.len() > 0 {
        let init = s.drop_last();
        let b = s.last();
        lemma_collapse_shape(init);
        let c = collapse(init);
        if b == SLASH {
        } else if init.len() == 0 || init.last() == SLASH {
            let r = c + seq![SLASH, b];
            assert(r.len() == c.len() + 2);
            assert forall|i: int| 0 <= i < r.len() - 1 implies !(#[trigger] r[i] == SLASH && r[i
                + 1] == SLASH) by {
                if i < c.len() - 1 {
                    assert(r[i] == c[i] && r[i + 1] == c[i + 1]);
                } else if i == c.len() - 1 {
                    assert(r[i] == c.last());
                } else {
                    assert(r[i + 1] == b);
                }
            }
            if c.len() == 0 {
                assert(r[0] == SLASH);
            } else {
                assert(r[0] == c[0]);
            }
        } else {
            let r = c.push(b);
            assert forall|i: int| 0 <= i < r.len() - 1 implies !(#[trigger] r[i] == SLASH && r[i
                + 1] == SLASH) by {
                if i < c.len() - 1 {
                    assert(r[i] == c[i] && r[i + 1] == c[i + 1]);
                } else {
                    assert(r[i + 1] == b);
                }
            }
            assert(r[0] == c[0]);
        }
    }
}

/// A separator between two paths keeps their segments apart: collapsing the
/// whole is collapsing each part, one after the other.
pub proof fn lemma_collapse_split(a: Seq<u8>, y: Seq<u8>)
    ensures
        collapse(a + seq![SLASH] + y) == collapse(a) + collapse(y),
    decreases y.len(),
{
    let s = a + seq![SLASH] + y;
    if y.len() == 0 {
        assert(s.drop_last() =~= a);
        assert(collapse(a) + collapse(y) =~= collapse(a));
    } else {
        let y0 = y.drop_last();
        let b = y.last();
        lemma_collapse_split(a, y0);
        assert(s.drop_last() =~= a + seq![SLASH] + y0);
        if b == SLASH {
        } else if y0.len() == 0 || y0.last() == SLASH {
            assert(collapse(a) + collapse(y) =~= collapse(a) + collapse(y0) + seq![SLASH, b]);
        } else {
            assert(collapse(a) + collapse(y) =~= (collapse(a) + collapse(y0)).push(b));
        }
    }
}

/// Mounting never doubles or drops a separator: the joined path is well
/// separated, and it holds the segments of `prefix` followed by those of `path`.
pub proof fn lemma_joined_path(prefix: Seq<u8>, path: Seq<u8>)
    ensures
        well_separated(joined_path(prefix, path)),
        collapse(prefix) + collapse(path) == collapse(joined_path(prefix, path)),
        collapse(prefix) + collapse(path) != Seq::<u8>::empty() ==> joined_path(prefix, path)
            == collapse(prefix) + collapse(path),
{
    let s = prefix + seq![SLASH] + path;
    lemma_collapse_split(prefix, path);
    lemma_collapse_shape(s);
    let c = collapse(s);
    if c.len() == 0 {
        let r = seq![SLASH];
        assert(r.drop_last() =~= Seq::<u8>::empty());
        reveal_with_fuel(collapse, 2);
        assert(collapse(r) =~= Seq::<u8>::empty());
    } else {
        lemma_collapse_idempotent(c);
    }
}

/// Collapsing a path that starts with a separator and never holds two in a row
/// only drops a separator at its end.
pub proof fn lemma_collapse_idempotent(r: Seq<u8>)
    requires
        r.len() > 0 ==> r[0] == SLASH,
        forall|i: int| 0 <= i < r.len() - 1 ==> !(#[trigger] r[i] == SLASH && r[i + 1] == SLASH),
    ensures
        collapse(r) == (if r.len() > 0 && r.last() == SLASH {
            r.drop_last()
        } else {
            r
        }),
    decreases r.len(),
{
    if r.len() > 0 {
        let init = r.drop_last();
        let b = r.last();
        assert forall|i: int| 0 <= i < init.len() - 1 implies !(#[trigger] init[i] == SLASH
            && init[i + 1] == SLASH) by {
            assert(init[i] == r[i] && init[i + 1] == r[i + 1]);
        }
        if init.len() > 0 {
            assert(init[0] == r[0]);
        }
        lemma_collapse_idempotent(init);
        if b == SLASH {
            if init.len() > 0 {
                assert(!(r[r.len() - 2] == SLASH && r[r.len() - 1] == SLASH));
            }
        } else if init.len() == 0 || init.last() == SLASH {
            assert(init.drop_last() + seq![SLASH, b] =~= r);
        } else {
            assert(init.push(b) =~= r);
        }
    }
}

} // verus!