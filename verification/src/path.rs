//! Paths as text, with components set apart by slashes.
//!
//! Two paths are the same where they have the same components: empty components do
//! not count, and neither does a dot, unless a relative path begins with it.
use vstd::prelude::*;
use crate::text::{chars_of, concat2, concat3, same};

verus! {

/// A path as its components.
#[verifier::ext_equal]
pub struct Parts {
    /// Whether the path starts at the root.
    pub absolute: bool,
    /// The names, from the outside in.
    pub names: Seq<Seq<char>>,
}

/// The pieces of `s` between slashes.
pub open spec fn pieces(s: Seq<char>) -> Seq<Seq<char>>
    decreases s.len(),
{
    if s.len() == 0 {
        seq![Seq::empty()]
    } else {
        let before = pieces(s.drop_last());
        if s.last() == '/' {
            before.push(Seq::empty())
        } else {
            before.drop_last().push(before.last().push(s.last()))
        }
    }
}

/// The pieces that count as components: not the empty ones, and a dot only at the
/// very front.
pub open spec fn counted(pieces: Seq<Seq<char>>) -> Seq<Seq<char>>
    decreases pieces.len(),
{
    if pieces.len() == 0 {
        Seq::empty()
    } else {
        let before = counted(pieces.drop_last());
        if counts(pieces.last(), pieces.len() == 1) {
            before.push(pieces.last())
        } else {
            before
        }
    }
}

/// Whether a piece counts as a component.
pub open spec fn counts(piece: Seq<char>, first: bool) -> bool {
    piece.len() > 0 && (first || piece != seq!['.'])
}

/// The components of a path.
pub open spec fn parts(s: Seq<char>) -> Parts {
    Parts { absolute: s.len() > 0 && s[0] == '/', names: counted(pieces(s)) }
}

/// The path of `name` seen from `base`.
pub open spec fn joined(base: Seq<char>, name: Seq<char>) -> Seq<char> {
    if name.len() > 0 && name[0] == '/' {
        name
    } else if base.len() == 0 || base.last() == '/' {
        base + name
    } else {
        base + seq!['/'] + name
    }
}

/// Whether `name` can stand as one component below a directory.
pub open spec fn plain_name(name: Seq<char>) -> bool {
    name.len() > 0 && name != seq!['.'] && !name.contains('/')
}

/// The one component that `path` has below `dir`.
pub open spec fn below(path: Parts, dir: Parts) -> Option<Seq<char>> {
    if path.absolute == dir.absolute && path.names.len() == dir.names.len() + 1
        && path.names.drop_last() == dir.names {
        Some(path.names.last())
    } else {
        None
    }
}

/// The name at the end of a path, unless that is a dot or two.
pub open spec fn last_name(path: Parts) -> Option<Seq<char>> {
    if path.names.len() == 0 || path.names.last() == seq!['.'] || path.names.last() == seq!['.', '.'] {
        None
    } else {
        Some(path.names.last())
    }
}

/// The path without its last component.
pub open spec fn outer(path: Parts) -> Parts {
    Parts { absolute: path.absolute, names: path.names.drop_last() }
}

/// `dir` with one more component.
pub open spec fn inner(dir: Parts, name: Seq<char>) -> Parts {
    Parts { absolute: dir.absolute, names: dir.names.push(name) }
}

proof fn lemma_pieces_nonempty(s: Seq<char>)
    ensures
        pieces(s).len() > 0,
    decreases s.len(),
{
    if s.len() > 0 {
        lemma_pieces_nonempty(s.drop_last());
    }
}

proof fn lemma_pieces_hold_no_slash(s: Seq<char>)
    ensures
        forall|i: int| 0 <= i < pieces(s).len() ==> !(#[trigger] pieces(s)[i]).contains('/'),
    decreases s.len(),
{
    if s.len() > 0 {
        lemma_pieces_nonempty(s.drop_last());
        lemma_pieces_hold_no_slash(s.drop_last());
        let before = pieces(s.drop_last());
        assert forall|i: int| 0 <= i < pieces(s).len() implies !(#[trigger] pieces(s)[i]).contains(
            '/',
        ) by {
            if s.last() != '/' && i == before.len() - 1 {
                let piece = pieces(s)[i];
                if piece.contains('/') {
                    let k = choose|k: int| 0 <= k < piece.len() && piece[k] == '/';
                    assert(before.last()[k] == '/');
                    assert(before[i].contains('/'));
                }
            }
        }
    }
}

/// The components of a path are proper ones.
pub proof fn lemma_names(s: Seq<char>)
    ensures
        proper(parts(s)),
{
    let path = parts(s);
    lemma_pieces_hold_no_slash(s);
    lemma_pieces_nonempty(s);
    if s.len() > 0 {
        lemma_first_piece(s);
    }
    lemma_counted(pieces(s));
    assert forall|i: int| 0 <= i < path.names.len() implies {
        &&& (#[trigger] path.names[i]).len() > 0
        &&& !path.names[i].contains('/')
        &&& i > 0 || path.absolute ==> path.names[i] != seq!['.']
    } by {
        let name = path.names[i];
        let k = choose|k: int| 0 <= k < pieces(s).len() && pieces(s)[k] == name;
        assert(!pieces(s)[k].contains('/'));
    }
}

proof fn lemma_first_piece(s: Seq<char>)
    requires
        s.len() > 0,
    ensures
        s[0] == '/' ==> pieces(s).len() > 1 && pieces(s)[0].len() == 0,
    decreases s.len(),
{
    if s.len() == 1 {
        assert(s.drop_last() =~= Seq::empty());
        reveal_with_fuel(pieces, 2);
    } else {
        lemma_first_piece(s.drop_last());
        assert(s.drop_last()[0] == s[0]);
    }
}

proof fn lemma_counted(all: Seq<Seq<char>>)
    ensures
        counted(all).len() <= all.len(),
        forall|i: int|
            0 <= i < counted(all).len() ==> {
                &&& (#[trigger] counted(all)[i]).len() > 0
                &&& all.contains(counted(all)[i])
                &&& i > 0 ==> counted(all)[i] != seq!['.']
                &&& all[0].len() == 0 ==> counted(all)[i] != seq!['.']
            },
    decreases all.len(),
{
    if all.len() > 0 {
        let early = all.drop_last();
        lemma_counted(early);
        assert forall|i: int| 0 <= i < counted(all).len() implies {
            &&& (#[trigger] counted(all)[i]).len() > 0
            &&& all.contains(counted(all)[i])
            &&& i > 0 ==> counted(all)[i] != seq!['.']
            &&& all[0].len() == 0 ==> counted(all)[i] != seq!['.']
        } by {
            if i < counted(early).len() {
                assert(counted(all)[i] == counted(early)[i]);
                let k = choose|k: int| 0 <= k < early.len() && early[k] == counted(early)[i];
                assert(all[k] == counted(all)[i]);
                assert(early[0] == all[0]);
            } else {
                assert(all[all.len() - 1] == counted(all)[i]);
            }
        }
    }
}

proof fn lemma_pieces_of_name(dir: Seq<char>, name: Seq<char>)
    requires
        !name.contains('/'),
    ensures
        pieces(dir + seq!['/'] + name) == pieces(dir).push(name),
    decreases name.len(),
{
    let whole = dir + seq!['/'] + name;
    if name.len() == 0 {
        assert(whole =~= dir.push('/'));
        assert(whole.drop_last() =~= dir);
        assert(name =~= Seq::empty());
    } else {
        let early = name.drop_last();
        assert(!early.contains('/')) by {
            if early.contains('/') {
                let k = choose|k: int| 0 <= k < early.len() && early[k] == '/';
                assert(name[k] == '/');
            }
        }
        lemma_pieces_of_name(dir, early);
        assert(whole.drop_last() =~= dir + seq!['/'] + early);
        assert(whole.last() == name.last());
        assert(name.contains(name.last()));
        assert(pieces(whole) =~= pieces(dir).push(name)) by {
            assert(early.push(name.last()) =~= name);
        }
    }
}

proof fn lemma_pieces_without_slash(name: Seq<char>)
    requires
        !name.contains('/'),
    ensures
        pieces(name) == seq![name],
    decreases name.len(),
{
    if name.len() == 0 {
        assert(name =~= Seq::empty());
    } else {
        let early = name.drop_last();
        assert(!early.contains('/')) by {
            if early.contains('/') {
                let k = choose|k: int| 0 <= k < early.len() && early[k] == '/';
                assert(name[k] == '/');
            }
        }
        lemma_pieces_without_slash(early);
        assert(name.contains(name.last()));
        assert(early.push(name.last()) =~= name);
        assert(pieces(name) =~= seq![name]);
    }
}

/// A plain name joined to a directory is one more component below it.
pub proof fn law_join_adds_one_component(dir: Seq<char>, name: Seq<char>)
    requires
        plain_name(name),
    ensures
        parts(joined(dir, name)) == inner(parts(dir), name),
        below(parts(joined(dir, name)), parts(dir)) == Some(name),
{
    assert(name[0] != '/') by {
        assert(name.contains(name[0]));
    }
    let whole = joined(dir, name);
    lemma_pieces_nonempty(dir);
    if dir.len() == 0 {
        assert(whole =~= name);
        lemma_pieces_without_slash(name);
        reveal_with_fuel(counted, 2);
        assert(counted(seq![name]) =~= seq![name]) by {
            assert(seq![name].drop_last() =~= Seq::empty());
        }
        let none = pieces(dir);
        assert(none.drop_last() =~= Seq::empty());
        assert(counted(none) =~= Seq::empty());
    } else if dir.last() == '/' {
        let outside = dir.drop_last();
        lemma_pieces_nonempty(outside);
        assert(whole =~= outside + seq!['/'] + name);
        lemma_pieces_of_name(outside, name);
        assert(pieces(dir) == pieces(outside).push(Seq::empty()));
        assert(pieces(dir).drop_last() =~= pieces(outside));
        assert(pieces(whole).drop_last() =~= pieces(outside));
        assert(whole[0] == dir[0]);
    } else {
        lemma_pieces_of_name(dir, name);
        assert(pieces(whole).drop_last() =~= pieces(dir));
        assert(whole[0] == dir[0]);
    }
    assert(parts(whole).names =~= parts(dir).names.push(name));
    assert(parts(whole).names.drop_last() =~= parts(dir).names);
}

/// The text of a path.
pub open spec fn rendered(path: Parts) -> Seq<char>
    decreases path.names.len(),
{
    if path.names.len() == 0 {
        if path.absolute {
            seq!['/']
        } else {
            Seq::empty()
        }
    } else {
        joined(rendered(outer(path)), path.names.last())
    }
}

/// Whether the components are those of some path.
pub open spec fn proper(path: Parts) -> bool {
    forall|i: int|
        0 <= i < path.names.len() ==> {
            &&& (#[trigger] path.names[i]).len() > 0
            &&& !path.names[i].contains('/')
            &&& i > 0 || path.absolute ==> path.names[i] != seq!['.']
        }
}

/// The components of any path, written out and taken apart again, are the same.
pub proof fn law_rendered_path_reads_back(path: Parts)
    requires
        proper(path),
    ensures
        parts(rendered(path)) == path,
    decreases path.names.len(),
{
    if path.names.len() == 0 {
        if path.absolute {
            let s = seq!['/'];
            assert(s.drop_last() =~= Seq::empty());
            reveal_with_fuel(pieces, 2);
            reveal_with_fuel(counted, 3);
            assert(pieces(s) =~= seq![Seq::<char>::empty(), Seq::<char>::empty()]);
            assert(pieces(s).drop_last() =~= seq![Seq::<char>::empty()]);
            assert(pieces(s).drop_last().drop_last() =~= Seq::<Seq<char>>::empty());
            assert(counted(pieces(s)) =~= Seq::empty());
        } else {
            let s = Seq::<char>::empty();
            assert(pieces(s).drop_last() =~= Seq::<Seq<char>>::empty());
            reveal_with_fuel(counted, 2);
            assert(counted(pieces(s)) =~= Seq::empty());
        }
        assert(parts(rendered(path)).names =~= path.names);
    } else {
        let name = path.names.last();
        let out = outer(path);
        assert forall|i: int| 0 <= i < out.names.len() implies {
            &&& (#[trigger] out.names[i]).len() > 0
            &&& !out.names[i].contains('/')
            &&& i > 0 || out.absolute ==> out.names[i] != seq!['.']
        } by {
            assert(out.names[i] == path.names[i]);
        }
        law_rendered_path_reads_back(out);
        assert(path.names[path.names.len() - 1] == name);
        if name == seq!['.'] {
            assert(path.names.len() == 1 && !path.absolute);
            assert(rendered(out) =~= Seq::empty());
            assert(joined(rendered(out), name) =~= name);
            lemma_pieces_without_slash(name);
            assert(seq![name].drop_last() =~= Seq::empty());
            reveal_with_fuel(counted, 2);
            assert(parts(rendered(path)).names =~= path.names);
            assert(name[0] == '.');
        } else {
            law_join_adds_one_component(rendered(out), name);
            assert(parts(rendered(path)).names =~= path.names);
        }
    }
}

/// The path of `name` seen from `base`.
pub fn join(base: &str, name: &str) -> (r: String)
    ensures
        r@ == joined(base@, name@),
{
    let b = chars_of(base);
    let n = chars_of(name);
    if n.len() > 0 && n[0] == '/' {
        return name.to_owned();
    }
    if b.len() == 0 || b[b.len() - 1] == '/' {
        concat2(base, name)
    } else {
        proof {
            reveal_strlit("/");
            assert("/"@ =~= seq!['/']);
        }
        concat3(base, "/", name)
    }
}

/// A path taken apart.
pub struct PathParts {
    /// Whether the path starts at the root.
    pub absolute: bool,
    /// The names, from the outside in.
    pub names: Vec<String>,
}

impl View for PathParts {
    type V = Parts;

    open spec fn view(&self) -> Parts {
        Parts { absolute: self.absolute, names: crate::text::texts(self.names@) }
    }
}

/// Whether a piece counts as a component.
fn piece_counts(piece: &str, first: bool) -> (r: bool)
    ensures
        r == counts(piece@, first),
{
    proof {
        reveal_strlit(".");
        assert("."@ =~= seq!['.']);
    }
    !piece.is_empty() && (first || !same(piece, "."))
}

/// The components of a path.
pub fn components(path: &str) -> (r: PathParts)
    ensures
        r@ == parts(path@),
        proper(r@),
{
    let v = chars_of(path);
    let mut names: Vec<String> = Vec::new();
    let mut piece = String::new();
    let mut first = true;
    let mut i: usize = 0;
    proof {
        assert(v@.take(0) =~= Seq::empty());
        let none = pieces(Seq::<char>::empty());
        assert(none.drop_last() =~= Seq::empty());
    }
    while i < v.len()
        invariant
            i <= v@.len(),
            pieces(v@.take(i as int)).len() > 0,
            crate::text::texts(names@) == counted(pieces(v@.take(i as int)).drop_last()),
            piece@ == pieces(v@.take(i as int)).last(),
            first == (pieces(v@.take(i as int)).len() == 1),
        decreases v@.len() - i,
    {
        let c = v[i];
        let ghost before = pieces(v@.take(i as int));
        let ghost listed = crate::text::texts(names@);
        assert(v@.take(i + 1).drop_last() =~= v@.take(i as int));
        if c == '/' {
            assert(before.push(Seq::empty()).drop_last() =~= before);
            if piece_counts(&piece, first) {
                names.push(piece);
                assert(crate::text::texts(names@) =~= listed.push(before.last()));
            }
            piece = String::new();
            first = false;
        } else {
            piece.push(c);
            assert(before.drop_last().push(piece@).drop_last() =~= before.drop_last());
        }
        i += 1;
    }
    assert(v@.take(i as int) =~= path@);
    let ghost listed = crate::text::texts(names@);
    if piece_counts(&piece, first) {
        let ghost last = piece@;
        names.push(piece);
        assert(crate::text::texts(names@) =~= listed.push(last));
    }
    let out = PathParts { absolute: v.len() > 0 && v[0] == '/', names };
    proof {
        lemma_names(path@);
        assert(out@ == parts(path@));
    }
    out
}

/// Whether the first `n` names of two paths are the same.
fn same_names(a: &Vec<String>, b: &Vec<String>, n: usize) -> (r: bool)
    requires
        n <= a@.len(),
        n <= b@.len(),
    ensures
        r == (crate::text::texts(a@).take(n as int) == crate::text::texts(b@).take(n as int)),
{
    let ghost left = crate::text::texts(a@).take(n as int);
    let ghost right = crate::text::texts(b@).take(n as int);
    let mut i: usize = 0;
    while i < n
        invariant
            i <= n <= a@.len(),
            n <= b@.len(),
            left == crate::text::texts(a@).take(n as int),
            right == crate::text::texts(b@).take(n as int),
            forall|k: int| 0 <= k < i ==> left[k] == right[k],
        decreases n - i,
    {
        if !same(&a[i], &b[i]) {
            assert(left[i as int] != right[i as int]);
            return false;
        }
        i += 1;
    }
    assert(left =~= right);
    true
}

/// Whether two paths are the same.
pub fn same_path(a: &str, b: &str) -> (r: bool)
    ensures
        r == (parts(a@) == parts(b@)),
{
    let p = components(a);
    let q = components(b);
    assert(p@.names.len() == p.names@.len() && q@.names.len() == q.names@.len());
    if p.absolute != q.absolute || p.names.len() != q.names.len() {
        return false;
    }
    let n: usize = p.names.len();
    assert(crate::text::texts(p.names@).take(n as int) =~= p@.names);
    assert(crate::text::texts(q.names@).take(n as int) =~= q@.names);
    same_names(&p.names, &q.names, n)
}

/// The one component that `path` has below `dir`.
pub fn name_below(path: &str, dir: &str) -> (r: Option<String>)
    ensures
        match r {
            Some(name) => below(parts(path@), parts(dir@)) == Some(name@),
            None => below(parts(path@), parts(dir@)) is None,
        },
{
    let p = components(path);
    let d = components(dir);
    if p.absolute != d.absolute || p.names.len() == 0 || p.names.len() - 1 != d.names.len() {
        return None;
    }
    let n: usize = d.names.len();
    assert(crate::text::texts(p.names@).take(n as int) =~= p@.names.drop_last());
    assert(crate::text::texts(d.names@).take(n as int) =~= d@.names);
    if same_names(&p.names, &d.names, n) {
        Some(p.names[n].clone())
    } else {
        None
    }
}

/// The name at the end of a path.
pub fn file_name(path: &str) -> (r: Option<String>)
    ensures
        match r {
            Some(name) => last_name(parts(path@)) == Some(name@),
            None => last_name(parts(path@)) is None,
        },
{
    let p = components(path);
    if p.names.len() == 0 {
        return None;
    }
    let last: usize = p.names.len() - 1;
    proof {
        reveal_strlit(".");
        reveal_strlit("..");
        assert("."@ =~= seq!['.']);
        assert(".."@ =~= seq!['.', '.']);
        assert(p@.names.last() == p.names@[last as int]@);
    }
    if same(&p.names[last], ".") || same(&p.names[last], "..") {
        None
    } else {
        Some(p.names[last].clone())
    }
}

/// The text of the path made of the first `n` components.
fn render_front(path: &PathParts, n: usize) -> (r: String)
    requires
        proper(path@),
        n <= path.names@.len(),
    ensures
        parts(r@) == (Parts { absolute: path.absolute, names: path@.names.take(n as int) }),
{
    let mut out = if path.absolute {
        "/".to_owned()
    } else {
        String::new()
    };
    let ghost front = Parts { absolute: path.absolute, names: Seq::empty() };
    proof {
        reveal_strlit("/");
        assert("/"@ =~= seq!['/']);
    }
    let mut i: usize = 0;
    assert(path@.names.take(0) =~= Seq::empty());
    while i < n
        invariant
            i <= n <= path.names@.len(),
            out@ == rendered(
                Parts { absolute: path.absolute, names: path@.names.take(i as int) },
            ),
        decreases n - i,
    {
        let ghost next = Parts { absolute: path.absolute, names: path@.names.take(i + 1) };
        assert(next.names.drop_last() =~= path@.names.take(i as int));
        assert(next.names.last() == path.names@[i as int]@);
        out = join(&out, &path.names[i]);
        i += 1;
    }
    proof {
        let whole = Parts { absolute: path.absolute, names: path@.names.take(n as int) };
        assert forall|k: int| 0 <= k < whole.names.len() implies {
            &&& (#[trigger] whole.names[k]).len() > 0
            &&& !whole.names[k].contains('/')
            &&& k > 0 || whole.absolute ==> whole.names[k] != seq!['.']
        } by {
            assert(whole.names[k] == path@.names[k]);
        }
        law_rendered_path_reads_back(whole);
    }
    out
}

/// The path without its last component; nothing for the root and the empty path.
pub fn parent(path: &str) -> (r: Option<String>)
    ensures
        match r {
            Some(dir) => parts(path@).names.len() > 0 && parts(dir@) == outer(parts(path@)),
            None => parts(path@).names.len() == 0,
        },
{
    let p = components(path);
    if p.names.len() == 0 {
        return None;
    }
    let n: usize = p.names.len() - 1;
    assert(p@.names.take(n as int) =~= p@.names.drop_last());
    Some(render_front(&p, n))
}

} // verus!
