//! Filesystem paths as lists of components, and the relative-path
//! decomposition that places a source file inside the backup tree.
//!
//! A path is a `Vec<Vec<u8>>`: one byte string per component, in order. The
//! host program converts real paths at the edge (an absolute path may carry
//! an empty first component standing for the filesystem root, so that
//! joining with `/` restores the original text).

use vstd::prelude::*;
use crate::bytes::{bytes_eq, clone_bytes};

verus! {

/// The literal top-folder name used for files sitting directly in the
/// watched root: `Root`.
pub open spec fn root_top_name() -> Seq<u8> {
    seq![82u8, 111u8, 111u8, 116u8]
}

/// `src` lies strictly under `root`: root's components are a proper prefix.
pub open spec fn under_root(src: Seq<Seq<u8>>, root: Seq<Seq<u8>>) -> bool {
    root.len() < src.len() && src.take(root.len() as int) == root
}

/// The components of `src` below `root`.
pub open spec fn rel_of(src: Seq<Seq<u8>>, root: Seq<Seq<u8>>) -> Seq<Seq<u8>> {
    src.skip(root.len() as int)
}

/// The top-level folder a file falls under: the first relative component,
/// or `Root` for a file directly in the watched root (relative depth one).
pub open spec fn top_of(src: Seq<Seq<u8>>, root: Seq<Seq<u8>>) -> Seq<u8> {
    let rel = rel_of(src, root);
    if rel.len() > 1 {
        rel[0]
    } else {
        root_top_name()
    }
}

/// The components strictly between the top-level folder and the file name;
/// empty at relative depth one or two.
pub open spec fn middle_of(src: Seq<Seq<u8>>, root: Seq<Seq<u8>>) -> Seq<Seq<u8>> {
    let rel = rel_of(src, root);
    if rel.len() > 1 {
        rel.subrange(1, rel.len() - 1)
    } else {
        Seq::<Seq<u8>>::empty()
    }
}

/// The file's base name: the last component.
pub open spec fn filename_of(src: Seq<Seq<u8>>) -> Seq<u8> {
    src.last()
}

/// The text of a component path, components joined with `/`.
pub open spec fn joined(p: Seq<Seq<u8>>) -> Seq<u8>
    decreases p.len(),
{
    if p.len() == 0 {
        Seq::<u8>::empty()
    } else if p.len() == 1 {
        p[0]
    } else {
        joined(p.drop_last()) + seq![47u8] + p.last()
    }
}

/// The decomposition of a source path relative to the watched root.
pub struct RelParts {
    /// First relative component, or `Root` at depth one.
    pub top_folder: Vec<u8>,
    /// Components strictly between the top folder and the file name.
    pub middle: Vec<Vec<u8>>,
    /// The file's base name.
    pub filename: Vec<u8>,
}

/// Bridges the element views of a component path: the deep view indexes to
/// each component's byte view.
pub proof fn lemma_deep_view_index(v: Vec<Vec<u8>>, i: int)
    requires
        0 <= i < v@.len(),
    ensures
        v.deep_view().len() == v@.len(),
        v.deep_view()[i] == v@[i]@,
{
    assert(v@[i].deep_view() =~= v@[i]@);
}

/// The deep view of a component path is its components' byte views, index
/// by index.
pub proof fn lemma_deep_view_is_views(v: Vec<Vec<u8>>)
    ensures
        v.deep_view().len() == v@.len(),
        forall|i: int| 0 <= i < v@.len() ==> #[trigger] v.deep_view()[i] == v@[i]@,
{
    assert forall|i: int| 0 <= i < v@.len() implies #[trigger] v.deep_view()[i] == v@[i]@ by {
        assert(v@[i].deep_view() =~= v@[i]@);
    }
}

/// A fresh copy of a component path.
pub fn clone_path(v: &Vec<Vec<u8>>) -> (r: Vec<Vec<u8>>)
    ensures
        r.deep_view() == v.deep_view(),
{
    let mut r: Vec<Vec<u8>> = Vec::new();
    let mut i: usize = 0;
    while i < v.len()
        invariant
            i <= v.len(),
            r@.len() == i,
            forall|j: int| 0 <= j < i ==> #[trigger] r@[j]@ == v@[j]@,
        decreases v.len() - i,
    {
        let c = clone_bytes(&v[i]);
        r.push(c);
        i += 1;
    }
    proof {
        lemma_deep_view_is_views(r);
        lemma_deep_view_is_views(*v);
        assert(r.deep_view() =~= v.deep_view());
    }
    r
}

/// Exact equality of two component paths.
pub fn path_eq(a: &Vec<Vec<u8>>, b: &Vec<Vec<u8>>) -> (r: bool)
    ensures
        r == (a.deep_view() == b.deep_view()),
{
    if a.len() != b.len() {
        proof {
            assert(a.deep_view().len() != b.deep_view().len());
        }
        return false;
    }
    let mut i: usize = 0;
    while i < a.len()
        invariant
            i <= a.len(),
            a.len() == b.len(),
            forall|j: int| 0 <= j < i ==> a.deep_view()[j] == b.deep_view()[j],
        decreases a.len() - i,
    {
        proof {
            lemma_deep_view_index(*a, i as int);
            lemma_deep_view_index(*b, i as int);
        }
        if !bytes_eq(&a[i], &b[i]) {
            assert(a.deep_view()[i as int] != b.deep_view()[i as int]);
            return false;
        }
        i += 1;
    }
    assert(a.deep_view() =~= b.deep_view());
    true
}

/// `src` lies strictly under `root`.
pub fn is_under_root(src: &Vec<Vec<u8>>, root: &Vec<Vec<u8>>) -> (r: bool)
    ensures
        r == under_root(src.deep_view(), root.deep_view()),
{
    if root.len() >= src.len() {
        return false;
    }
    let mut i: usize = 0;
    while i < root.len()
        invariant
            i <= root.len(),
            root.len() < src.len(),
            forall|j: int| 0 <= j < i ==> src.deep_view()[j] == root.deep_view()[j],
        decreases root.len() - i,
    {
        proof {
            lemma_deep_view_index(*src, i as int);
            lemma_deep_view_index(*root, i as int);
        }
        if !bytes_eq(&src[i], &root[i]) {
            assert(src.deep_view().take(root@.len() as int)[i as int] != root.deep_view()[
                i as int
            ]);
            return false;
        }
        i += 1;
    }
    assert(src.deep_view().take(root@.len() as int) =~= root.deep_view());
    true
}

/// Splits a source path relative to the watched root. Returns `None` — the
/// silent skip — exactly when the path does not lie strictly under the
/// root; otherwise the top folder (`Root` at depth one), the middle
/// components, and the file name.
pub fn split_relative(src: &Vec<Vec<u8>>, root: &Vec<Vec<u8>>) -> (r: Option<RelParts>)
    ensures
        r is Some <==> under_root(src.deep_view(), root.deep_view()),
        r is Some ==> r.unwrap().top_folder@ == top_of(src.deep_view(), root.deep_view()),
        r is Some ==> r.unwrap().middle.deep_view() == middle_of(
            src.deep_view(),
            root.deep_view(),
        ),
        r is Some ==> r.unwrap().filename@ == filename_of(src.deep_view()),
{
    if !is_under_root(src, root) {
        return None;
    }
    let ghost dsrc = src.deep_view();
    let ghost droot = root.deep_view();
    let start = root.len();
    proof {
        lemma_deep_view_index(*src, src@.len() - 1);
    }
    let filename = clone_bytes(&src[src.len() - 1]);
    assert(filename@ == filename_of(dsrc));
    if src.len() - start > 1 {
        proof {
            lemma_deep_view_index(*src, start as int);
        }
        let top_folder = clone_bytes(&src[start]);
        assert(top_folder@ == top_of(dsrc, droot));
        let mut middle: Vec<Vec<u8>> = Vec::new();
        let mut i: usize = start + 1;
        while i < src.len() - 1
            invariant
                start + 1 <= i <= src@.len() - 1,
                start == droot.len(),
                dsrc == src.deep_view(),
                droot.len() < dsrc.len(),
                middle@.len() == i - (start + 1),
                forall|j: int|
                    0 <= j < middle@.len() ==> #[trigger] middle@[j]@ == src@[start + 1 + j]@,
            decreases src.len() - i,
        {
            let c = clone_bytes(&src[i]);
            middle.push(c);
            i += 1;
        }
        proof {
            lemma_deep_view_is_views(middle);
            lemma_deep_view_is_views(*src);
            assert(rel_of(dsrc, droot).len() > 1);
            assert(middle.deep_view() =~= rel_of(dsrc, droot).subrange(
                1,
                rel_of(dsrc, droot).len() - 1,
            ));
        }
        Some(RelParts { top_folder, middle, filename })
    } else {
        let top_folder: Vec<u8> = vec![82u8, 111, 111, 116];
        assert(top_folder@ =~= root_top_name());
        let middle: Vec<Vec<u8>> = Vec::new();
        proof {
            assert(rel_of(dsrc, droot).len() == 1);
            assert(middle.deep_view() =~= middle_of(dsrc, droot));
        }
        Some(RelParts { top_folder, middle, filename })
    }
}

/// Renders a component path as text, components joined with `/`.
pub fn render_path(p: &Vec<Vec<u8>>) -> (r: Vec<u8>)
    ensures
        r@ == joined(p.deep_view()),
{
    let mut r: Vec<u8> = Vec::new();
    let mut i: usize = 0;
    assert(p.deep_view().take(0) =~= Seq::<Seq<u8>>::empty());
    while i < p.len()
        invariant
            i <= p.len(),
            r@ == joined(p.deep_view().take(i as int)),
        decreases p.len() - i,
    {
        proof {
            lemma_deep_view_index(*p, i as int);
        }
        if i > 0 {
            r.push(47);
        }
        crate::bytes::append_bytes(&mut r, &p[i]);
        proof {
            let t1 = p.deep_view().take(i as int + 1);
            assert(t1.drop_last() =~= p.deep_view().take(i as int));
            assert(t1.last() == p.deep_view()[i as int]);
            if i == 0 {
                assert(joined(t1) == p.deep_view()[0]);
                assert(Seq::<u8>::empty() + p.deep_view()[0] =~= p.deep_view()[0]);
            }
        }
        i += 1;
    }
    assert(p.deep_view().take(p@.len() as int) =~= p.deep_view());
    r
}

/// At relative depth one — the file sits directly in the watched root — the
/// decomposition always lands on the literal `Root` top folder with no
/// middle components.
pub proof fn lemma_depth_one_is_root(src: Seq<Seq<u8>>, root: Seq<Seq<u8>>)
    requires
        under_root(src, root),
        src.len() == root.len() + 1,
    ensures
        top_of(src, root) == root_top_name(),
        middle_of(src, root) == Seq::<Seq<u8>>::empty(),
{
    assert(rel_of(src, root).len() == 1);
}

} // verus!
