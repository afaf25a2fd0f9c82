//! The order of Unix paths given as text, as `Path`'s `Ord` compares them:
//! component by component.

use vstd::prelude::*;
use vstd::string::*;

use crate::text::{char_order, compare_str, lemma_char_order_basics, lemma_char_order_trans, split_char, split_on, str_eq};

verus! {

/// One component of a Unix path, as `Path::components` yields them.
pub enum PathComponent {
    /// The leading `/`.
    RootDir,
    /// A leading `.` of a relative path.
    CurDir,
    /// A `..`.
    ParentDir,
    /// Any other non-empty piece between separators.
    Normal(String),
}

/// A path component, its text taken as characters.
pub ghost enum ComponentView {
    RootDir,
    CurDir,
    ParentDir,
    Normal(Seq<char>),
}

impl View for PathComponent {
    type V = ComponentView;

    open spec fn view(&self) -> ComponentView {
        match self {
            PathComponent::RootDir => ComponentView::RootDir,
            PathComponent::CurDir => ComponentView::CurDir,
            PathComponent::ParentDir => ComponentView::ParentDir,
            PathComponent::Normal(s) => ComponentView::Normal(s@),
        }
    }
}

/// The components of the pieces of a path between its `/`s: empty pieces
/// and `.` are dropped, except a `.` that opens a relative path (`first`).
pub open spec fn piece_components(pieces: Seq<Seq<char>>, first: bool) -> Seq<ComponentView>
    decreases pieces.len(),
{
    if pieces.len() == 0 {
        Seq::empty()
    } else {
        let x = pieces[0];
        let rest = piece_components(pieces.drop_first(), false);
        if x.len() == 0 {
            rest
        } else if x == seq!['.'] {
            if first {
                seq![ComponentView::CurDir] + rest
            } else {
                rest
            }
        } else if x == seq!['.', '.'] {
            seq![ComponentView::ParentDir] + rest
        } else {
            seq![ComponentView::Normal(x)] + rest
        }
    }
}

/// The components of a Unix path (`Path::components`): the root when it
/// starts with `/`, then its pieces between `/`s.
pub open spec fn path_components(p: Seq<char>) -> Seq<ComponentView> {
    if p.len() > 0 && p[0] == '/' {
        seq![ComponentView::RootDir] + piece_components(split_char(p, '/'), false)
    } else {
        piece_components(split_char(p, '/'), true)
    }
}

/// The rank of a component's kind, in the order `Component` declares them.
pub open spec fn component_rank(c: ComponentView) -> int {
    match c {
        ComponentView::RootDir => 1,
        ComponentView::CurDir => 2,
        ComponentView::ParentDir => 3,
        ComponentView::Normal(_) => 4,
    }
}

/// Three-way comparison of components: by kind, then normal components by
/// their text.
pub open spec fn component_order(a: ComponentView, b: ComponentView) -> int {
    if component_rank(a) < component_rank(b) {
        -1
    } else if component_rank(a) > component_rank(b) {
        1
    } else {
        match (a, b) {
            (ComponentView::Normal(x), ComponentView::Normal(y)) => char_order(x, y),
            _ => 0,
        }
    }
}

/// Three-way lexicographic comparison of component sequences.
pub open spec fn components_order(a: Seq<ComponentView>, b: Seq<ComponentView>) -> int
    decreases a.len(),
{
    if a.len() == 0 {
        if b.len() == 0 {
            0
        } else {
            -1
        }
    } else if b.len() == 0 {
        1
    } else if component_order(a[0], b[0]) != 0 {
        component_order(a[0], b[0])
    } else {
        components_order(a.drop_first(), b.drop_first())
    }
}

/// Three-way comparison of two paths, as `Path`'s `Ord` gives it.
pub open spec fn path_order(a: Seq<char>, b: Seq<char>) -> int {
    components_order(path_components(a), path_components(b))
}

proof fn lemma_component_order_basics(a: ComponentView, b: ComponentView)
    ensures
        component_order(a, b) == -component_order(b, a),
        (component_order(a, b) == 0) == (a == b),
        -1 <= component_order(a, b) <= 1,
{
    match (a, b) {
        (ComponentView::Normal(x), ComponentView::Normal(y)) => {
            lemma_char_order_basics(x, y);
        },
        _ => {},
    }
}

proof fn lemma_component_order_trans(a: ComponentView, b: ComponentView, c: ComponentView)
    requires
        component_order(a, b) <= 0,
        component_order(b, c) <= 0,
    ensures
        component_order(a, c) <= 0,
{
    match (a, b, c) {
        (ComponentView::Normal(x), ComponentView::Normal(y), ComponentView::Normal(z)) => {
            lemma_char_order_trans(x, y, z);
        },
        _ => {},
    }
}

/// Swapping the arguments negates the comparison; it is zero exactly on equal
/// component sequences.
pub proof fn lemma_components_order_basics(a: Seq<ComponentView>, b: Seq<ComponentView>)
    ensures
        components_order(a, b) == -components_order(b, a),
        (components_order(a, b) == 0) == (a == b),
        -1 <= components_order(a, b) <= 1,
    decreases a.len(),
{
    if a.len() > 0 && b.len() > 0 {
        lemma_component_order_basics(a[0], b[0]);
        if component_order(a[0], b[0]) == 0 {
            lemma_components_order_basics(a.drop_first(), b.drop_first());
            if a.drop_first() == b.drop_first() {
                assert(a =~= seq![a[0]] + a.drop_first());
                assert(b =~= seq![b[0]] + b.drop_first());
            }
        }
    } else if a.len() == 0 && b.len() == 0 {
        assert(a =~= b);
    }
}

/// The comparison of component sequences is transitive.
pub proof fn lemma_components_order_trans(a: Seq<ComponentView>, b: Seq<ComponentView>, c: Seq<ComponentView>)
    requires
        components_order(a, b) <= 0,
        components_order(b, c) <= 0,
    ensures
        components_order(a, c) <= 0,
    decreases a.len(),
{
    if a.len() > 0 && b.len() > 0 && c.len() > 0 {
        lemma_component_order_basics(a[0], b[0]);
        lemma_component_order_basics(b[0], c[0]);
        lemma_component_order_basics(a[0], c[0]);
        lemma_component_order_trans(a[0], b[0], c[0]);
        if component_order(a[0], b[0]) == 0 && component_order(b[0], c[0]) == 0 {
            lemma_components_order_trans(a.drop_first(), b.drop_first(), c.drop_first());
        } else if component_order(a[0], c[0]) == 0 {
            lemma_component_order_trans(c[0], a[0], b[0]);
        }
    }
}

/// The component a piece of a path stands for, if any (see
/// `piece_components`).
fn piece_component(piece: &str, first: bool) -> (r: Option<PathComponent>)
    ensures
        match r {
            Some(c) => piece_components(seq![piece@], first) == seq![c@],
            None => piece_components(seq![piece@], first) == Seq::<ComponentView>::empty(),
        },
{
    proof {
        reveal_strlit(".");
        reveal_strlit("..");
        assert(seq![piece@].drop_first() =~= Seq::<Seq<char>>::empty());
        assert(seq![piece@][0] == piece@);
        assert(piece_components(seq![piece@].drop_first(), false) == Seq::<ComponentView>::empty());
        assert("."@ =~= seq!['.']);
        assert(".."@ =~= seq!['.', '.']);
    }
    if piece.unicode_len() == 0 {
        assert(piece_components(seq![piece@], first) =~= Seq::<ComponentView>::empty());
        return None;
    }
    if str_eq(piece, ".") {
        if first {
            assert(seq![ComponentView::CurDir] + Seq::<ComponentView>::empty() =~= seq![ComponentView::CurDir]);
            assert(piece_components(seq![piece@], first) =~= seq![ComponentView::CurDir]);
            return Some(PathComponent::CurDir);
        }
        assert(piece_components(seq![piece@], first) =~= Seq::<ComponentView>::empty());
        return None;
    }
    if str_eq(piece, "..") {
        assert(seq![ComponentView::ParentDir] + Seq::<ComponentView>::empty() =~= seq![ComponentView::ParentDir]);
        return Some(PathComponent::ParentDir);
    }
    let r = PathComponent::Normal(crate::text::owned(piece));
    assert(seq![ComponentView::Normal(piece@)] + Seq::<ComponentView>::empty() =~= seq![r@]);
    Some(r)
}

proof fn lemma_piece_components_step(pieces: Seq<Seq<char>>, first: bool)
    requires
        pieces.len() > 0,
    ensures
        piece_components(pieces, first) == piece_components(seq![pieces[0]], first) + piece_components(
            pieces.drop_first(),
            false,
        ),
{
    let one = seq![pieces[0]];
    assert(one.drop_first() =~= Seq::<Seq<char>>::empty());
    assert(one[0] == pieces[0]);
    let rest = piece_components(pieces.drop_first(), false);
    assert(piece_components(one.drop_first(), false) == Seq::<ComponentView>::empty());
    if pieces[0].len() == 0 {
        assert(piece_components(one, first) =~= Seq::<ComponentView>::empty());
        assert(Seq::<ComponentView>::empty() + rest =~= rest);
    } else if pieces[0] == seq!['.'] {
        if first {
            assert(piece_components(one, first) =~= seq![ComponentView::CurDir]);
        } else {
            assert(piece_components(one, first) =~= Seq::<ComponentView>::empty());
            assert(Seq::<ComponentView>::empty() + rest =~= rest);
        }
    } else if pieces[0] == seq!['.', '.'] {
        assert(piece_components(one, first) =~= seq![ComponentView::ParentDir]);
    } else {
        assert(piece_components(one, first) =~= seq![ComponentView::Normal(pieces[0])]);
    }
}

/// The components of a Unix path (see `path_components`).
pub fn components_of(path: &str) -> (r: Vec<PathComponent>)
    ensures
        crate::sort::views(r@) == path_components(path@),
{
    let pieces = split_on(path, '/');
    let ghost ps = split_char(path@, '/');
    let root = path.unicode_len() > 0 && path.get_char(0) == '/';
    let mut out: Vec<PathComponent> = Vec::new();
    if root {
        out.push(PathComponent::RootDir);
    }
    let ghost head = crate::sort::views(out@);
    assert(ps.subrange(0, ps.len() as int) =~= ps);
    let mut i: usize = 0;
    while i < pieces.len()
        invariant
            i <= pieces@.len(),
            pieces@.map_values(|x: String| x@) == ps,
            ps == split_char(path@, '/'),
            path_components(path@) == head + (if root {
                piece_components(ps, false)
            } else {
                piece_components(ps, true)
            }),
            head == (if root {
                seq![ComponentView::RootDir]
            } else {
                Seq::<ComponentView>::empty()
            }),
            head + (if root {
                piece_components(ps, false)
            } else {
                piece_components(ps, true)
            }) == crate::sort::views(out@) + piece_components(
                ps.subrange(i as int, ps.len() as int),
                i == 0 && !root,
            ),
        decreases pieces@.len() - i,
    {
        let ghost rest = ps.subrange(i as int, ps.len() as int);
        let ghost before = crate::sort::views(out@);
        assert(rest[0] == pieces@[i as int]@);
        assert(rest.drop_first() =~= ps.subrange(i + 1, ps.len() as int));
        proof {
            lemma_piece_components_step(rest, i == 0 && !root);
        }
        let c = piece_component(pieces[i].as_str(), i == 0 && !root);
        match c {
            Some(c) => {
                out.push(c);
                assert(crate::sort::views(out@) =~= before + piece_components(seq![rest[0]], i == 0 && !root));
            },
            None => {
                assert(crate::sort::views(out@) =~= before + piece_components(seq![rest[0]], i == 0 && !root));
            },
        }
        i = i + 1;
    }
    proof {
        if !root {
            assert(!(path@.len() > 0 && path@[0] == '/'));
            assert(Seq::<ComponentView>::empty() + piece_components(ps, true) =~= piece_components(ps, true));
        }
        assert(ps.subrange(i as int, ps.len() as int) =~= Seq::<Seq<char>>::empty());
        assert(crate::sort::views(out@) + Seq::<ComponentView>::empty() =~= crate::sort::views(out@));
    }
    out
}

/// Three-way comparison of two components (see `component_order`).
fn compare_component(a: &PathComponent, b: &PathComponent) -> (r: i8)
    ensures
        r as int == component_order(a@, b@),
{
    let ra: u8 = match a {
        PathComponent::RootDir => 1,
        PathComponent::CurDir => 2,
        PathComponent::ParentDir => 3,
        PathComponent::Normal(_) => 4,
    };
    let rb: u8 = match b {
        PathComponent::RootDir => 1,
        PathComponent::CurDir => 2,
        PathComponent::ParentDir => 3,
        PathComponent::Normal(_) => 4,
    };
    if ra < rb {
        return -1;
    }
    if ra > rb {
        return 1;
    }
    match (a, b) {
        (PathComponent::Normal(x), PathComponent::Normal(y)) => compare_str(x.as_str(), y.as_str()),
        _ => 0,
    }
}

/// Three-way comparison of two paths (see `path_order`).
pub fn compare_paths(a: &str, b: &str) -> (r: i8)
    ensures
        r as int == path_order(a@, b@),
{
    let ca = components_of(a);
    let cb = components_of(b);
    let ghost va = crate::sort::views(ca@);
    let ghost vb = crate::sort::views(cb@);
    let mut i: usize = 0;
    assert(va.skip(0) =~= va && vb.skip(0) =~= vb);
    loop
        invariant
            va == crate::sort::views(ca@),
            vb == crate::sort::views(cb@),
            va == path_components(a@),
            vb == path_components(b@),
            i <= ca@.len(),
            i <= cb@.len(),
            path_order(a@, b@) == components_order(va.skip(i as int), vb.skip(i as int)),
        decreases ca@.len() - i,
    {
        let ghost sa = va.skip(i as int);
        let ghost sb = vb.skip(i as int);
        if i == ca.len() {
            return if i == cb.len() {
                0
            } else {
                -1
            };
        }
        if i == cb.len() {
            return 1;
        }
        assert(sa[0] == ca@[i as int]@ && sb[0] == cb@[i as int]@);
        let c = compare_component(&ca[i], &cb[i]);
        if c != 0 {
            return c;
        }
        assert(sa.drop_first() =~= va.skip(i + 1));
        assert(sb.drop_first() =~= vb.skip(i + 1));
        i = i + 1;
    }
}

} // verus!
