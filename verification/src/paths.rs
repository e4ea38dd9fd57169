//! Path normalization for configured output paths: `.` and `..` are folded
//! away without touching the file system, and `~` names the home directory.
//! Paths follow Unix syntax: `/` separates components.

use crate::cli::{chars_of, piece_bounds, pieces};
use crate::text::owned;
use vstd::prelude::*;
use vstd::string::*;

verus! {

/// One component of a path.
#[derive(Debug, PartialEq, Eq)]
pub enum PathComponent {
    /// The root `/` of an absolute path.
    RootDir,
    /// A leading `.` of a relative path.
    CurDir,
    /// `..`.
    ParentDir,
    /// Any other name.
    Normal(String),
}

/// What a component holds, with names as character sequences.
pub enum ComponentView {
    RootDir,
    CurDir,
    ParentDir,
    Normal(Seq<char>),
}

/// The view of a component.
pub open spec fn component_view(c: PathComponent) -> ComponentView {
    match c {
        PathComponent::RootDir => ComponentView::RootDir,
        PathComponent::CurDir => ComponentView::CurDir,
        PathComponent::ParentDir => ComponentView::ParentDir,
        PathComponent::Normal(s) => ComponentView::Normal(s@),
    }
}

/// The views of a list of components.
pub open spec fn views(cs: Seq<PathComponent>) -> Seq<ComponentView> {
    cs.map_values(|c: PathComponent| component_view(c))
}

/// Folding one more component into a normalized path: `.` vanishes, `..`
/// removes the last name (it stays at the root, and accumulates when there
/// is no name to remove), the root restarts the path, names are appended.
pub open spec fn fold_component(acc: Seq<ComponentView>, c: ComponentView) -> Seq<ComponentView> {
    match c {
        ComponentView::CurDir => acc,
        ComponentView::ParentDir => if acc == seq![ComponentView::RootDir] {
            acc
        } else if acc.len() == 0 || acc.last() == ComponentView::ParentDir {
            acc.push(ComponentView::ParentDir)
        } else {
            acc.drop_last()
        },
        ComponentView::RootDir => seq![ComponentView::RootDir],
        ComponentView::Normal(s) => acc.push(ComponentView::Normal(s)),
    }
}

/// Folds the first `k` components.
pub open spec fn fold_components(cs: Seq<ComponentView>, k: int) -> Seq<ComponentView>
    decreases k,
{
    if k <= 0 {
        Seq::empty()
    } else {
        fold_component(fold_components(cs, k - 1), cs[k - 1])
    }
}

/// The normalized form of a component list; `.` when nothing is left.
pub open spec fn normalized(cs: Seq<ComponentView>) -> Seq<ComponentView> {
    let r = fold_components(cs, cs.len() as int);
    if r.len() == 0 {
        seq![ComponentView::CurDir]
    } else {
        r
    }
}

/// A folded path: the root followed by names, or some `..` followed by names.
pub open spec fn normal_form(r: Seq<ComponentView>) -> bool {
    ||| r.len() > 0 && r[0] is RootDir && forall|i: int| 1 <= i < r.len() ==> #[trigger] r[i] is Normal
    ||| (forall|i: int| 0 <= i < r.len() ==> #[trigger] r[i] is ParentDir || r[i] is Normal) && (forall|i: int, j: int|
        0 <= i < j < r.len() && #[trigger] r[j] is ParentDir ==> #[trigger] r[i] is ParentDir)
}

proof fn lemma_fold_normal_form(cs: Seq<ComponentView>, k: int)
    requires
        0 <= k <= cs.len(),
    ensures
        normal_form(fold_components(cs, k)),
    decreases k,
{
    if k > 0 {
        lemma_fold_normal_form(cs, k - 1);
        let acc = fold_components(cs, k - 1);
        let r = fold_component(acc, cs[k - 1]);
        match cs[k - 1] {
            ComponentView::ParentDir => {
                if acc == seq![ComponentView::RootDir] {
                } else if acc.len() == 0 || acc.last() == ComponentView::ParentDir {
                    if acc.len() > 0 && acc[0] is RootDir {
                        assert(acc.last() is Normal || acc.len() == 1);
                        assert(acc =~= seq![ComponentView::RootDir]);
                    }
                    assert forall|i: int| 0 <= i < r.len() implies #[trigger] r[i] is ParentDir by {
                        if i < acc.len() {
                            assert(acc[acc.len() - 1] is ParentDir);
                        }
                    };
                } else {
                    assert(r =~= acc.drop_last());
                    if acc[0] is RootDir && acc.len() == 1 {
                        assert(acc =~= seq![ComponentView::RootDir]);
                    }
                }
            },
            ComponentView::RootDir => {
                assert(r =~= seq![ComponentView::RootDir]);
            },
            _ => {},
        }
    }
}

proof fn lemma_fold_of_normal_form(r: Seq<ComponentView>, j: int)
    requires
        normal_form(r),
        0 <= j <= r.len(),
    ensures
        fold_components(r, j) == r.take(j),
    decreases j,
{
    if j > 0 {
        lemma_fold_of_normal_form(r, j - 1);
        let acc = r.take(j - 1);
        assert(r.take(j) =~= acc.push(r[j - 1]));
        match r[j - 1] {
            ComponentView::ParentDir => {
                if j - 1 > 0 {
                    assert(acc.last() == r[j - 2]);
                    assert(r[j - 2] is ParentDir);
                    assert(acc != seq![ComponentView::RootDir]) by {
                        assert(acc[0] is ParentDir);
                    };
                }
            },
            ComponentView::RootDir => {
                if j - 1 > 0 {
                    assert(r[0] is RootDir);
                    assert(false);
                }
                assert(acc =~= Seq::<ComponentView>::empty());
                assert(r.take(j) =~= seq![ComponentView::RootDir]);
            },
            _ => {},
        }
    }
}

/// Normalizing a normalized path changes nothing.
pub proof fn lemma_normalized_idempotent(cs: Seq<ComponentView>)
    ensures
        normalized(normalized(cs)) == normalized(cs),
{
    let r = fold_components(cs, cs.len() as int);
    lemma_fold_normal_form(cs, cs.len() as int);
    if r.len() == 0 {
        let n = seq![ComponentView::CurDir];
        assert(fold_components(n, 0) == Seq::<ComponentView>::empty());
        assert(fold_components(n, 1) == Seq::<ComponentView>::empty());
    } else {
        lemma_fold_of_normal_form(r, r.len() as int);
        assert(r.take(r.len() as int) =~= r);
    }
}

/// Normalizes a component list without touching the file system.
pub fn normalize_components(components: &Vec<PathComponent>) -> (result: Vec<PathComponent>)
    ensures
        views(result@) == normalized(views(components@)),
{
    let ghost input = views(components@);
    let mut acc: Vec<PathComponent> = Vec::new();
    let mut i: usize = 0;
    while i < components.len()
        invariant
            i <= components@.len(),
            input == views(components@),
            views(acc@) == fold_components(input, i as int),
        decreases components@.len() - i,
    {
        let ghost before = views(acc@);
        assert(input[i as int] == component_view(components@[i as int]));
        match &components[i] {
            PathComponent::CurDir => {},
            PathComponent::ParentDir => {
                let at_root = acc.len() == 1 && matches!(acc[0], PathComponent::RootDir);
                let ends_with_parent = acc.len() > 0 && matches!(acc[acc.len() - 1], PathComponent::ParentDir);
                proof {
                    if acc@.len() == 1 {
                        assert(before[0] == component_view(acc@[0]));
                    }
                    if acc@.len() > 0 {
                        assert(before.last() == component_view(acc@[acc@.len() - 1]));
                    }
                }
                if at_root {
                    assert(before =~= seq![ComponentView::RootDir]);
                } else if acc.len() == 0 || ends_with_parent {
                    acc.push(PathComponent::ParentDir);
                    assert(views(acc@) =~= before.push(ComponentView::ParentDir));
                } else {
                    proof {
                        if before == seq![ComponentView::RootDir] {
                            assert(before[0] == component_view(acc@[0]));
                        }
                    }
                    acc.pop();
                    assert(views(acc@) =~= before.drop_last());
                }
            },
            PathComponent::RootDir => {
                acc = Vec::new();
                acc.push(PathComponent::RootDir);
                assert(views(acc@) =~= seq![ComponentView::RootDir]);
            },
            PathComponent::Normal(s) => {
                acc.push(PathComponent::Normal(s.clone()));
                assert(views(acc@) =~= before.push(component_view(components@[i as int])));
            },
        }
        i = i + 1;
    }
    if acc.len() == 0 {
        acc.push(PathComponent::CurDir);
        assert(views(acc@) =~= seq![ComponentView::CurDir]);
    }
    acc
}

/// The components the first `k` segments contribute: empty and `.`
/// segments none, `..` a parent step, any other a name.
pub open spec fn segment_components(segs: Seq<Seq<char>>, k: int) -> Seq<ComponentView>
    decreases k,
{
    if k <= 0 {
        Seq::empty()
    } else {
        let prev = segment_components(segs, k - 1);
        let seg = segs[k - 1];
        if seg.len() == 0 || seg == seq!['.'] {
            prev
        } else if seg == seq!['.', '.'] {
            prev.push(ComponentView::ParentDir)
        } else {
            prev.push(ComponentView::Normal(seg))
        }
    }
}

/// The components of a Unix path: the root for a leading `/`, `.` for a
/// leading `./` (or a lone `.`) of a relative path, then its segments.
pub open spec fn path_components(s: Seq<char>) -> Seq<ComponentView> {
    let head = if s.len() > 0 && s[0] == '/' {
        seq![ComponentView::RootDir]
    } else if s.len() > 0 && s[0] == '.' && (s.len() == 1 || s[1] == '/') {
        seq![ComponentView::CurDir]
    } else {
        Seq::empty()
    };
    let segs = pieces(s, '/');
    head + segment_components(segs, segs.len() as int)
}

/// Appends `name` to the path `a`, with a separator unless `a` is empty or
/// already ends with one.
pub open spec fn join_text(a: Seq<char>, name: Seq<char>) -> Seq<char> {
    if a.len() == 0 {
        name
    } else if a.last() == '/' {
        a + name
    } else {
        a + seq!['/'] + name
    }
}

/// The path text of the first `k` components.
pub open spec fn render_prefix(cs: Seq<ComponentView>, k: int) -> Seq<char>
    decreases k,
{
    if k <= 0 {
        Seq::empty()
    } else {
        let prev = render_prefix(cs, k - 1);
        match cs[k - 1] {
            ComponentView::RootDir => seq!['/'],
            ComponentView::CurDir => join_text(prev, seq!['.']),
            ComponentView::ParentDir => join_text(prev, seq!['.', '.']),
            ComponentView::Normal(n) => join_text(prev, n),
        }
    }
}

/// The path text of a component list.
pub open spec fn render(cs: Seq<ComponentView>) -> Seq<char> {
    render_prefix(cs, cs.len() as int)
}

/// `s` without leading `/` and `\\` characters.
pub open spec fn trim_separators(s: Seq<char>) -> Seq<char>
    decreases s.len(),
{
    if s.len() > 0 && (s[0] == '/' || s[0] == '\\') {
        trim_separators(s.drop_first())
    } else {
        s
    }
}

/// The path a candidate names, before normalization: an absolute candidate
/// itself; `~` (or `~/…`) under the home directory when one is known;
/// otherwise the candidate below `base`.
pub open spec fn joined_path(base: Seq<char>, candidate: Seq<char>, home: Option<Seq<char>>) -> Seq<char> {
    if candidate.len() > 0 && candidate[0] == '/' {
        candidate
    } else if candidate.len() > 0 && candidate[0] == '~' && home is Some && (candidate.len() == 1 || candidate[1]
        == '/' || candidate[1] == '\\') {
        let rest = trim_separators(candidate.drop_first());
        if rest.len() == 0 {
            home->0
        } else {
            join_text(home->0, rest)
        }
    } else {
        join_text(base, candidate)
    }
}

/// The resolved, normalized path.
pub open spec fn resolved(base: Seq<char>, candidate: Seq<char>, home: Option<Seq<char>>) -> Seq<char> {
    render(normalized(path_components(joined_path(base, candidate, home))))
}

fn join_string(a: &String, name: &str) -> (r: String)
    ensures
        r@ == join_text(a@, name@),
{
    proof { reveal_strlit("/"); }
    let chars = chars_of(a.as_str());
    if chars.len() == 0 {
        return owned(name);
    }
    let mut r = a.clone();
    if chars[chars.len() - 1] != '/' {
        r.append("/");
    }
    r.append(name);
    r
}

/// Renders components as path text.
pub fn render_path(components: &Vec<PathComponent>) -> (r: String)
    ensures
        r@ == render(views(components@)),
{
    proof {
        reveal_strlit("/");
        reveal_strlit(".");
        reveal_strlit("..");
    }
    let ghost cs = views(components@);
    let mut r = String::new();
    let mut i: usize = 0;
    while i < components.len()
        invariant
            i <= components@.len(),
            cs == views(components@),
            r@ == render_prefix(cs, i as int),
        decreases components@.len() - i,
    {
        assert(cs[i as int] == component_view(components@[i as int]));
        proof {
            reveal_strlit("/");
            reveal_strlit(".");
            reveal_strlit("..");
        }
        assert("/"@ =~= seq!['/']);
        assert("."@ =~= seq!['.']);
        assert(".."@ =~= seq!['.', '.']);
        r = match &components[i] {
            PathComponent::RootDir => owned("/"),
            PathComponent::CurDir => join_string(&r, "."),
            PathComponent::ParentDir => join_string(&r, ".."),
            PathComponent::Normal(n) => join_string(&r, n.as_str()),
        };
        i = i + 1;
    }
    r
}

/// The components of a Unix path.
pub fn components_of(path: &str) -> (cs: Vec<PathComponent>)
    ensures
        views(cs@) == path_components(path@),
{
    proof {
        reveal_strlit(".");
        reveal_strlit("..");
    }
    let chars = chars_of(path);
    let mut cs: Vec<PathComponent> = Vec::new();
    let n = chars.len();
    if n > 0 && chars[0] == '/' {
        cs.push(PathComponent::RootDir);
    } else if n > 0 && chars[0] == '.' && (n == 1 || chars[1] == '/') {
        cs.push(PathComponent::CurDir);
    }
    let ghost head = views(cs@);
    assert(head =~= (if chars@.len() > 0 && chars@[0] == '/' {
        seq![ComponentView::RootDir]
    } else if chars@.len() > 0 && chars@[0] == '.' && (chars@.len() == 1 || chars@[1] == '/') {
        seq![ComponentView::CurDir]
    } else {
        Seq::<ComponentView>::empty()
    }));
    let bounds = piece_bounds(&chars, '/');
    let ghost segs = pieces(chars@, '/');
    let mut j: usize = 0;
    while j < bounds.len()
        invariant
            chars@ == path@,
            segs == pieces(chars@, '/'),
            bounds@.len() == segs.len(),
            forall|q: int|
                #![trigger bounds@[q]]
                0 <= q < bounds@.len() ==> bounds@[q].0 <= bounds@[q].1 && bounds@[q].1 <= chars@.len() && segs[q]
                    == chars@.subrange(bounds@[q].0 as int, bounds@[q].1 as int),
            j <= bounds@.len(),
            views(cs@) == head + segment_components(segs, j as int),
        decreases bounds@.len() - j,
    {
        let (from, to) = bounds[j];
        let ghost seg = segs[j as int];
        assert(seg == chars@.subrange(from as int, to as int));
        let ghost before = views(cs@);
        let len = to - from;
        let is_dot = len == 1 && chars[from] == '.';
        let is_dot_dot = len == 2 && chars[from] == '.' && chars[from + 1] == '.';
        proof {
            if len == 1 {
                assert(seg =~= seq![chars@[from as int]]);
            }
            if len == 2 {
                assert(seg =~= seq![chars@[from as int], chars@[from + 1]]);
            }
        }
        let ghost prefix = segment_components(segs, j as int);
        if len == 0 || is_dot {
            assert(segment_components(segs, j + 1) == prefix);
        } else if is_dot_dot {
            cs.push(PathComponent::ParentDir);
            assert(views(cs@) =~= before.push(ComponentView::ParentDir));
            assert(seg != seq!['.']);
            assert(segment_components(segs, j + 1) == prefix.push(ComponentView::ParentDir));
            assert(head + prefix.push(ComponentView::ParentDir) =~= (head + prefix).push(ComponentView::ParentDir));
        } else {
            let name = path.substring_char(from, to);
            cs.push(PathComponent::Normal(owned(name)));
            assert(views(cs@) =~= before.push(ComponentView::Normal(seg)));
            proof {
                if seg =~= seq!['.'] {
                    assert(seg.len() == 1 && seg[0] == '.');
                }
                if seg =~= seq!['.', '.'] {
                    assert(seg.len() == 2 && seg[0] == '.' && seg[1] == '.');
                }
            }
            assert(segment_components(segs, j + 1) == prefix.push(ComponentView::Normal(seg)));
            assert(head + prefix.push(ComponentView::Normal(seg)) =~= (head + prefix).push(ComponentView::Normal(seg)));
        }
        j = j + 1;
    }
    cs
}

fn trim_separator_chars(chars: &Vec<char>, from: usize) -> (a: usize)
    requires
        from <= chars@.len(),
    ensures
        from <= a <= chars@.len(),
        trim_separators(chars@.subrange(from as int, chars@.len() as int)) == chars@.subrange(
            a as int,
            chars@.len() as int,
        ),
    decreases chars@.len() - from,
{
    let ghost rest = chars@.subrange(from as int, chars@.len() as int);
    if from < chars.len() && (chars[from] == '/' || chars[from] == '\\') {
        assert(rest.drop_first() =~= chars@.subrange(from + 1, chars@.len() as int));
        trim_separator_chars(chars, from + 1)
    } else {
        from
    }
}

/// The characters of an optional text.
pub open spec fn text_of(t: Option<String>) -> Option<Seq<char>> {
    match t {
        Some(s) => Some(s@),
        None => None,
    }
}

/// Resolves `candidate` against `base_dir` with `home` as the home
/// directory, and normalizes the result.
pub fn resolve_path_with_home(base_dir: &str, candidate: &str, home: Option<String>) -> (r: String)
    ensures
        r@ == resolved(base_dir@, candidate@, text_of(home)),
{
    let ghost h = text_of(home);
    let chars = chars_of(candidate);
    let n = chars.len();
    let joined: String = if n > 0 && chars[0] == '/' {
        owned(candidate)
    } else if n > 0 && chars[0] == '~' && home.is_some() && (n == 1 || chars[1] == '/' || chars[1] == '\\') {
        let home_path = home.unwrap();
        let a = trim_separator_chars(&chars, 1);
        assert(candidate@.drop_first() =~= chars@.subrange(1, n as int));
        if a == n {
            home_path
        } else {
            let rest = candidate.substring_char(a, n);
            join_string(&home_path, rest)
        }
    } else {
        join_string(&owned(base_dir), candidate)
    };
    assert(joined@ == joined_path(base_dir@, candidate@, h));
    let components = components_of(joined.as_str());
    let normal = normalize_components(&components);
    render_path(&normal)
}

} // verus!
