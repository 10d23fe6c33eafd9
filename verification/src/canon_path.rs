//! Absolute and relative paths in canonical form: sequences of "normal"
//! path components, without traversal components such as `.` and `..`.

use vstd::prelude::*;
use crate::text::{joined_with, lemma_split_after_sep, lemma_split_joined, split_on};

verus! {

/// A component of a path, as the platform's path parser splits it.
#[derive(Debug, Clone, PartialEq, Eq)]
pub enum PathComponent {
    Prefix,
    RootDir,
    CurDir,
    ParentDir,
    Normal(String),
}

/// An absolute path: the components that follow the root directory.
pub type AbsPath = Vec<String>;

/// A borrowed absolute path.
pub type AbsPathRef<'a> = &'a [String];

/// A relative path: the components that follow the current directory.
pub type RelPath = Vec<String>;

/// A component of a path, with the text of a normal component.
pub enum PathComponentView {
    Prefix,
    RootDir,
    CurDir,
    ParentDir,
    Normal(Seq<char>),
}

impl View for PathComponent {
    type V = PathComponentView;

    open spec fn view(&self) -> PathComponentView {
        match self {
            PathComponent::Prefix => PathComponentView::Prefix,
            PathComponent::RootDir => PathComponentView::RootDir,
            PathComponent::CurDir => PathComponentView::CurDir,
            PathComponent::ParentDir => PathComponentView::ParentDir,
            PathComponent::Normal(s) => PathComponentView::Normal(s@),
        }
    }
}

/// The components that the pieces of a path between separators make: none
/// for an empty piece or `.`, the parent directory for `..`, and a normal
/// component for any other piece.
pub open spec fn piece_components(pieces: Seq<Seq<char>>) -> Seq<PathComponentView>
    decreases pieces.len(),
{
    if pieces.len() == 0 {
        Seq::empty()
    } else {
        let q = pieces.last();
        let before = piece_components(pieces.drop_last());
        if q.len() == 0 || q == seq!['.'] {
            before
        } else if q == seq!['.', '.'] {
            before.push(PathComponentView::ParentDir)
        } else {
            before.push(PathComponentView::Normal(q))
        }
    }
}

/// The components of the Unix path `p`, as `std::path::Path::components`
/// documents them: the root directory where `p` starts with `/`, else the
/// current directory where its first piece is `.`; then a component for
/// each piece between separators, where repeated separators, a trailing
/// separator and `.` after the start are normalized away.
pub open spec fn path_components(p: Seq<char>) -> Seq<PathComponentView> {
    let pieces = split_on(p, '/');
    let start = if p.len() > 0 && p[0] == '/' {
        seq![PathComponentView::RootDir]
    } else if pieces[0] == seq!['.'] {
        seq![PathComponentView::CurDir]
    } else {
        Seq::empty()
    };
    start + piece_components(pieces)
}

/// The components of `cs`, by their views.
pub open spec fn components_view(cs: Seq<PathComponent>) -> Seq<PathComponentView> {
    cs.map_values(|c: PathComponent| c@)
}

/// Whether `c` is the text of a component that a path parser reads back as
/// that same normal component: not empty, without `/`, and neither `.` nor
/// `..`.
pub open spec fn canonical_component(c: Seq<char>) -> bool {
    &&& c.len() > 0
    &&& forall|j: int| 0 <= j < c.len() ==> c[j] != '/'
    &&& c != seq!['.']
    &&& c != seq!['.', '.']
}

/// Whether every component of `p` is canonical.
pub open spec fn canonical_path(p: Seq<Seq<char>>) -> bool {
    forall|i: int| 0 <= i < p.len() ==> canonical_component(#[trigger] p[i])
}

/// The components of the rendering of the absolute path `p`: the root
/// directory, then one normal component per component of `p`.
pub open spec fn rendered_components(p: Seq<Seq<char>>) -> Seq<PathComponentView> {
    seq![PathComponentView::RootDir] + p.map_values(|c: Seq<char>| PathComponentView::Normal(c))
}

/// Splits `p` into its components with `std::path::Path::components`,
/// each converted one for one (a normal component by its text, which is
/// whole since `p` is text). The contract claims that the components, by
/// their views, are `path_components` of the text of `p`: the splitting
/// that std documents for Unix paths, where `/` is the only separator and
/// no path has a prefix.
#[verifier::external_body]
fn components_of(p: &str) -> (r: Vec<PathComponent>)
    ensures
        components_view(r@) == path_components(p@),
{
    let mut cs = Vec::new();
    for c in std::path::Path::new(p).components() {
        cs.push(
            match c {
                std::path::Component::Prefix(_) => PathComponent::Prefix,
                std::path::Component::RootDir => PathComponent::RootDir,
                std::path::Component::CurDir => PathComponent::CurDir,
                std::path::Component::ParentDir => PathComponent::ParentDir,
                std::path::Component::Normal(s) => PathComponent::Normal(
                    s.to_string_lossy().into_owned(),
                ),
            },
        );
    }
    cs
}

/// The ways in which a path can fail to be an absolute path.
#[derive(Debug, Clone, Copy, PartialEq, Eq)]
pub enum NewAbsPathError {
    EmptyAbsPath,
    NoRootDirPrefix,
    SpecialComponentInAbsPath,
}

impl NewAbsPathError {
    pub open spec fn spec_message(&self) -> Seq<char> {
        match self {
            NewAbsPathError::EmptyAbsPath => "The absolute path was empty"@,
            NewAbsPathError::NoRootDirPrefix => "The absolute path didn't start with `/`"@,
            NewAbsPathError::SpecialComponentInAbsPath =>
                "The absolute path contained a special component, such as `.` or `..`"@,
        }
    }

    /// The human-readable description of the error.
    pub fn message(&self) -> (msg: String)
        ensures
            msg@ == self.spec_message(),
    {
        match self {
            NewAbsPathError::EmptyAbsPath => String::from_str("The absolute path was empty"),
            NewAbsPathError::NoRootDirPrefix => String::from_str(
                "The absolute path didn't start with `/`",
            ),
            NewAbsPathError::SpecialComponentInAbsPath => String::from_str(
                "The absolute path contained a special component, such as `.` or `..`",
            ),
        }
    }
}

/// The ways in which a path can fail to be a relative path.
#[derive(Debug, Clone, Copy, PartialEq, Eq)]
pub enum NewRelPathError {
    EmptyRelPath,
    NoCurDirPrefix,
    SpecialComponentInRelPath,
}

impl NewRelPathError {
    pub open spec fn spec_message(&self) -> Seq<char> {
        match self {
            NewRelPathError::EmptyRelPath => "The relative path was empty"@,
            NewRelPathError::NoCurDirPrefix => "The relative path didn't start with `.`"@,
            NewRelPathError::SpecialComponentInRelPath =>
                "The relative path contained a special component, such as `.` or `..`"@,
        }
    }

    /// The human-readable description of the error.
    pub fn message(&self) -> (msg: String)
        ensures
            msg@ == self.spec_message(),
    {
        match self {
            NewRelPathError::EmptyRelPath => String::from_str("The relative path was empty"),
            NewRelPathError::NoCurDirPrefix => String::from_str(
                "The relative path didn't start with `.`",
            ),
            NewRelPathError::SpecialComponentInRelPath => String::from_str(
                "The relative path contained a special component, such as `.` or `..`",
            ),
        }
    }
}

/// A path as the sequence of its components' texts.
pub open spec fn path_view(p: Seq<String>) -> Seq<Seq<char>> {
    p.map_values(|s: String| s@)
}

/// The text of a normal component (and the empty text for any other).
pub open spec fn normal_text(c: PathComponentView) -> Seq<char> {
    match c {
        PathComponentView::Normal(s) => s,
        _ => Seq::empty(),
    }
}

/// Whether every component of `cs` after the first is a normal component.
pub open spec fn rest_normal(cs: Seq<PathComponentView>) -> bool {
    forall|i: int| 1 <= i < cs.len() ==> #[trigger] cs[i] is Normal
}

/// The texts of the components of `cs` after the first.
pub open spec fn rest_texts(cs: Seq<PathComponentView>) -> Seq<Seq<char>> {
    cs.drop_first().map_values(|c: PathComponentView| normal_text(c))
}

/// The absolute path that the components `cs` make, if they make one.
pub open spec fn abs_path_spec(cs: Seq<PathComponentView>) -> Result<
    Seq<Seq<char>>,
    NewAbsPathError,
> {
    if cs.len() == 0 {
        Err(NewAbsPathError::EmptyAbsPath)
    } else if !(cs[0] is RootDir) {
        Err(NewAbsPathError::NoRootDirPrefix)
    } else if !rest_normal(cs) {
        Err(NewAbsPathError::SpecialComponentInAbsPath)
    } else {
        Ok(rest_texts(cs))
    }
}

/// The relative path that the components `cs` make, if they make one.
pub open spec fn rel_path_spec(cs: Seq<PathComponentView>) -> Result<
    Seq<Seq<char>>,
    NewRelPathError,
> {
    if cs.len() == 0 {
        Err(NewRelPathError::EmptyRelPath)
    } else if !(cs[0] is CurDir) {
        Err(NewRelPathError::NoCurDirPrefix)
    } else if !rest_normal(cs) {
        Err(NewRelPathError::SpecialComponentInRelPath)
    } else {
        Ok(rest_texts(cs))
    }
}

/// The view of a path result, with the path by its components' texts.
pub open spec fn path_result_view<E>(r: Result<Vec<String>, E>) -> Result<Seq<Seq<char>>, E> {
    match r {
        Ok(p) => Ok(path_view(p@)),
        Err(e) => Err(e),
    }
}

/// Collects the texts of the normal components of `cs` after the first, or
/// returns the index of the first component that isn't normal.
fn normal_tail(cs: &Vec<PathComponent>) -> (r: Result<Vec<String>, usize>)
    requires
        cs@.len() >= 1,
    ensures
        match r {
            Ok(p) => rest_normal(components_view(cs@)) && path_view(p@) == rest_texts(
                components_view(cs@),
            ),
            Err(i) => !rest_normal(components_view(cs@)) && 1 <= i < cs@.len() && !(
            cs@[i as int] is Normal),
        },
{
    let mut p: Vec<String> = Vec::new();
    let mut i: usize = 1;
    while i < cs.len()
        invariant
            1 <= i <= cs@.len(),
            p@.len() == i - 1,
            forall|j: int| 1 <= j < i ==> #[trigger] cs@[j] is Normal,
            forall|j: int| 0 <= j < p@.len() ==> #[trigger] p@[j]@ == normal_text(cs@[j + 1]@),
        decreases cs@.len() - i,
    {
        match &cs[i] {
            PathComponent::Normal(s) => {
                p.push(s.clone());
            },
            _ => {
                proof {
                    assert(!(components_view(cs@)[i as int] is Normal));
                }
                return Err(i);
            },
        }
        i += 1;
    }
    proof {
        let cv = components_view(cs@);
        assert forall|j: int| 1 <= j < cv.len() implies #[trigger] cv[j] is Normal by {
            assert(cs@[j] is Normal);
        }
        assert(path_view(p@) =~= rest_texts(cv));
    }
    Ok(p)
}

/// Returns the absolute path made by the path components `cs`: these must
/// be a root directory followed by normal components.
pub fn abs_path_from_components(cs: &Vec<PathComponent>) -> (r: Result<AbsPath, NewAbsPathError>)
    ensures
        path_result_view(r) == abs_path_spec(components_view(cs@)),
{
    if cs.len() == 0 {
        return Err(NewAbsPathError::EmptyAbsPath);
    }
    match &cs[0] {
        PathComponent::RootDir => {},
        _ => {
            return Err(NewAbsPathError::NoRootDirPrefix);
        },
    }
    match normal_tail(cs) {
        Ok(p) => Ok(p),
        Err(_) => Err(NewAbsPathError::SpecialComponentInAbsPath),
    }
}

/// Returns the relative path made by the path components `cs`: these must
/// be a current directory followed by normal components.
pub fn rel_path_from_components(cs: &Vec<PathComponent>) -> (r: Result<RelPath, NewRelPathError>)
    ensures
        path_result_view(r) == rel_path_spec(components_view(cs@)),
{
    if cs.len() == 0 {
        return Err(NewRelPathError::EmptyRelPath);
    }
    match &cs[0] {
        PathComponent::CurDir => {},
        _ => {
            return Err(NewRelPathError::NoCurDirPrefix);
        },
    }
    match normal_tail(cs) {
        Ok(p) => Ok(p),
        Err(_) => Err(NewRelPathError::SpecialComponentInRelPath),
    }
}

/// The absolute path that the text `s` denotes, or the reason that it
/// denotes none.
pub open spec fn abs_path_of_text(s: Seq<char>) -> Result<Seq<Seq<char>>, NewAbsPathError> {
    abs_path_spec(path_components(s))
}

/// The pieces of the rendering of a path are an empty piece (before the
/// first `/`), then its components.
proof fn lemma_split_joined_path(p: Seq<Seq<char>>)
    requires
        canonical_path(p),
    ensures
        split_on(joined(p), '/') == seq![Seq::<char>::empty()] + p,
    decreases p.len(),
{
    if p.len() == 0 {
        assert(seq![Seq::<char>::empty()] + p =~= seq![Seq::<char>::empty()]);
    } else {
        let dl = p.drop_last();
        assert(canonical_path(dl)) by {
            assert forall|i: int| 0 <= i < dl.len() implies canonical_component(#[trigger] dl[i]) by {
                assert(canonical_component(p[i]));
            }
        }
        lemma_split_joined_path(dl);
        assert(canonical_component(p[p.len() - 1]));
        lemma_split_after_sep(joined(dl), p.last(), '/');
        assert((seq![Seq::<char>::empty()] + dl).push(p.last()) =~= seq![Seq::<char>::empty()] + p);
    }
}

/// The pieces of a rendering after the first make one normal component
/// each.
proof fn lemma_piece_components_canonical(p: Seq<Seq<char>>)
    requires
        canonical_path(p),
    ensures
        piece_components(seq![Seq::<char>::empty()] + p) == p.map_values(
            |c: Seq<char>| PathComponentView::Normal(c),
        ),
    decreases p.len(),
{
    let e = seq![Seq::<char>::empty()];
    if p.len() == 0 {
        assert(e + p =~= e);
        assert(e.drop_last() =~= Seq::<Seq<char>>::empty());
        assert(piece_components(Seq::<Seq<char>>::empty()) == Seq::<PathComponentView>::empty());
        assert(e.last().len() == 0);
        assert(piece_components(e) == piece_components(e.drop_last()));
        assert(p.map_values(|c: Seq<char>| PathComponentView::Normal(c)) =~= Seq::<
            PathComponentView,
        >::empty());
    } else {
        let dl = p.drop_last();
        assert(canonical_path(dl)) by {
            assert forall|i: int| 0 <= i < dl.len() implies canonical_component(#[trigger] dl[i]) by {
                assert(canonical_component(p[i]));
            }
        }
        lemma_piece_components_canonical(dl);
        assert((e + p).drop_last() =~= e + dl);
        assert((e + p).last() == p[p.len() - 1]);
        assert(canonical_component(p[p.len() - 1]));
        assert(p[p.len() - 1].len() > 0);
        assert(piece_components(e + p) == piece_components(e + dl).push(
            PathComponentView::Normal(p[p.len() - 1]),
        ));
        assert(p.map_values(|c: Seq<char>| PathComponentView::Normal(c)) =~= dl.map_values(
            |c: Seq<char>| PathComponentView::Normal(c),
        ).push(PathComponentView::Normal(p[p.len() - 1])));
    }
}

/// The components of the rendering of an absolute path with canonical
/// components: the root directory, then one normal component per component.
pub proof fn lemma_rendered_path_components(p: Seq<Seq<char>>)
    requires
        canonical_path(p),
    ensures
        path_components(display_spec(p)) == rendered_components(p),
{
    let s = display_spec(p);
    lemma_piece_components_canonical(p);
    if p.len() == 0 {
        assert(s == seq!['/']);
        assert(s.drop_last() =~= Seq::<char>::empty());
        assert(split_on(s.drop_last(), '/') == seq![Seq::<char>::empty()]);
        assert(s.last() == '/');
        assert(split_on(s, '/') =~= seq![Seq::<char>::empty()].push(Seq::<char>::empty()));
        assert(split_on(s, '/') =~= seq![Seq::<char>::empty(), Seq::<char>::empty()]);
        assert(seq![Seq::<char>::empty()] + p =~= seq![Seq::<char>::empty()]);
        let two = seq![Seq::<char>::empty(), Seq::<char>::empty()];
        assert(two.drop_last() =~= seq![Seq::<char>::empty()]);
        assert(piece_components(two) == piece_components(two.drop_last()));
        assert(path_components(s) =~= rendered_components(p));
    } else {
        lemma_joined_nonempty(p);
        lemma_split_joined_path(p);
        assert(s[0] == '/');
        assert(path_components(s) =~= rendered_components(p));
    }
}

/// The components of a rendered canonical path make that path again.
proof fn lemma_rendered_components_abs_path(p: Seq<Seq<char>>)
    ensures
        abs_path_spec(rendered_components(p)) == Ok::<Seq<Seq<char>>, NewAbsPathError>(p),
{
    let cs = rendered_components(p);
    assert(cs[0] is RootDir);
    assert forall|i: int| 1 <= i < cs.len() implies #[trigger] cs[i] is Normal by {
        assert(cs[i] == PathComponentView::Normal(p[i - 1]));
    }
    assert(rest_texts(cs) =~= p);
}

/// A rendering with at least one component is `/` followed by the
/// components with `/` between each two.
proof fn lemma_joined_nonempty(p: Seq<Seq<char>>)
    requires
        p.len() >= 1,
    ensures
        joined(p) == seq!['/'] + joined_with(p, '/'),
    decreases p.len(),
{
    if p.len() == 1 {
        assert(p.drop_last() =~= Seq::<Seq<char>>::empty());
        assert(p.last() == p[0]);
        assert(joined(p.drop_last()) =~= Seq::<char>::empty());
        assert(joined(p) =~= seq!['/'] + p[0]);
    } else {
        lemma_joined_nonempty(p.drop_last());
        assert(joined(p) =~= seq!['/'] + (joined_with(p.drop_last(), '/') + seq!['/'] + p.last()));
    }
}

/// Two absolute paths with canonical components render alike only if they
/// are equal.
pub proof fn lemma_display_injective(a: Seq<Seq<char>>, b: Seq<Seq<char>>)
    requires
        canonical_path(a),
        canonical_path(b),
        display_spec(a) == display_spec(b),
    ensures
        a == b,
{
    if a.len() == 0 && b.len() == 0 {
        assert(a =~= b);
    } else if a.len() == 0 || b.len() == 0 {
        let c = if a.len() == 0 { b } else { a };
        assert(canonical_component(c[c.len() - 1]));
        assert(joined(c).len() >= 2);
    } else {
        lemma_joined_nonempty(a);
        lemma_joined_nonempty(b);
        assert(joined_with(a, '/') =~= joined(a).drop_first());
        assert(joined_with(b, '/') =~= joined(b).drop_first());
        assert forall|i: int, j: int| 0 <= i < a.len() && 0 <= j < a[i].len() implies #[trigger] a[i][j]
            != '/' by {
            assert(canonical_component(a[i]));
        }
        assert forall|i: int, j: int| 0 <= i < b.len() && 0 <= j < b[i].len() implies #[trigger] b[i][j]
            != '/' by {
            assert(canonical_component(b[i]));
        }
        lemma_split_joined(a, '/');
        lemma_split_joined(b, '/');
    }
}

/// Rendering an absolute path with canonical components and reading the
/// text back as an absolute path gives the same path.
pub proof fn lemma_abs_path_round_trip(p: Seq<Seq<char>>)
    requires
        canonical_path(p),
    ensures
        abs_path_of_text(display_spec(p)) == Ok::<Seq<Seq<char>>, NewAbsPathError>(p),
{
    lemma_rendered_path_components(p);
    lemma_rendered_components_abs_path(p);
}

/// Returns the absolute path that `p` denotes. `p` must begin with a "root
/// directory" component.
pub fn parse_abs_path(p: &str) -> (r: Result<AbsPath, NewAbsPathError>)
    ensures
        path_result_view(r) == abs_path_of_text(p@),
{
    abs_path_from_path_buf(p)
}

/// Returns the absolute path that the path `p` denotes.
pub fn abs_path_from_path_buf(p: &str) -> (r: Result<AbsPath, NewAbsPathError>)
    ensures
        path_result_view(r) == abs_path_of_text(p@),
{
    let cs = components_of(p);
    abs_path_from_components(&cs)
}

/// Returns the relative path that `p` denotes. `p` must begin with a
/// "current directory" component (i.e. `.`).
pub fn rel_path_from_path_buf(p: &str) -> (r: Result<RelPath, NewRelPathError>)
    ensures
        path_result_view(r) == rel_path_spec(path_components(p@)),
{
    let cs = components_of(p);
    rel_path_from_components(&cs)
}

/// The rendering of a path: each component preceded by `/`.
pub open spec fn joined(p: Seq<Seq<char>>) -> Seq<char>
    decreases p.len(),
{
    if p.len() == 0 {
        Seq::empty()
    } else {
        joined(p.drop_last()) + seq!['/'] + p.last()
    }
}

/// The rendering of an absolute path: `/` for the root directory.
pub open spec fn display_spec(p: Seq<Seq<char>>) -> Seq<char> {
    if p.len() == 0 {
        seq!['/']
    } else {
        joined(p)
    }
}

fn render(abs_path: AbsPathRef) -> (s: String)
    ensures
        s@ == display_spec(path_view(abs_path@)),
{
    let ghost pv = path_view(abs_path@);
    let sep = "/";
    proof {
        reveal_strlit("/");
    }
    if abs_path.len() == 0 {
        return String::from_str(sep);
    }
    let mut s = String::new();
    let mut i: usize = 0;
    while i < abs_path.len()
        invariant
            i <= abs_path@.len(),
            pv == path_view(abs_path@),
            sep@ == seq!['/'],
            s@ == joined(pv.take(i as int)),
        decreases abs_path@.len() - i,
    {
        proof {
            assert(pv.take(i + 1).drop_last() =~= pv.take(i as int));
            assert(pv.take(i + 1).last() == abs_path@[i as int]@);
        }
        s.append(sep);
        s.append(abs_path[i].as_str());
        i += 1;
    }
    proof {
        assert(pv.take(i as int) =~= pv);
    }
    s
}

/// Renders `abs_path` with `/` before each component (or as `/` if it has
/// none).
pub fn abs_path_display(abs_path: AbsPathRef) -> (r: Option<String>)
    ensures
        r matches Some(s) && s@ == display_spec(path_view(abs_path@)),
{
    Some(render(abs_path))
}

/// Renders `abs_path` as `abs_path_display` does.
pub fn abs_path_display_lossy(abs_path: AbsPathRef) -> (s: String)
    ensures
        s@ == display_spec(path_view(abs_path@)),
{
    render(abs_path)
}

/// Extends `abs_path` with the components of `rel_path`.
pub fn abs_path_extend(abs_path: &mut AbsPath, rel_path: RelPath)
    ensures
        final(abs_path)@ == old(abs_path)@ + rel_path@,
{
    let mut rel = rel_path;
    abs_path.append(&mut rel);
}

/// Returns `abs_path` extended with the components of `rel_path`.
pub fn abs_path_concat(abs_path: AbsPathRef, rel_path: &RelPath) -> (r: AbsPath)
    ensures
        path_view(r@) == path_view(abs_path@) + path_view(rel_path@),
{
    let mut r: Vec<String> = Vec::new();
    let mut i: usize = 0;
    while i < abs_path.len()
        invariant
            i <= abs_path@.len(),
            r@.len() == i,
            forall|j: int| 0 <= j < i ==> #[trigger] r@[j]@ == abs_path@[j]@,
        decreases abs_path@.len() - i,
    {
        r.push(abs_path[i].clone());
        i += 1;
    }
    let mut i: usize = 0;
    while i < rel_path.len()
        invariant
            i <= rel_path@.len(),
            r@.len() == abs_path@.len() + i,
            forall|j: int| 0 <= j < abs_path@.len() ==> #[trigger] r@[j]@ == abs_path@[j]@,
            forall|j: int|
                0 <= j < i ==> #[trigger] r@[abs_path@.len() + j]@ == rel_path@[j]@,
        decreases rel_path@.len() - i,
    {
        r.push(rel_path[i].clone());
        i += 1;
    }
    proof {
        assert forall|j: int| 0 <= j < r@.len() implies #[trigger] path_view(r@)[j] == (path_view(
            abs_path@,
        ) + path_view(rel_path@))[j] by {
            if j >= abs_path@.len() {
                assert(r@[abs_path@.len() + (j - abs_path@.len())]@ == rel_path@[j
                    - abs_path@.len()]@);
            }
        }
        assert(path_view(r@) =~= path_view(abs_path@) + path_view(rel_path@));
    }
    r
}

/// Renders `abs_path` as the path of a file system entry.
pub fn abs_path_to_path_buf(abs_path: AbsPath) -> (s: String)
    ensures
        s@ == display_spec(path_view(abs_path@)),
{
    render(abs_path.as_slice())
}

} // verus!
