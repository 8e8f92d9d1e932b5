//! Filesystem paths as strings, built and taken apart by std's `Path` rules
//! on Unix. Paths here are UTF-8 text; joining and splitting into
//! components are stated exactly, the other operations are named.

use vstd::prelude::*;
use crate::uri::string_views;
use crate::text::{first_pos, lemma_first_pos_at};

verus! {

/// What `Path::join` (that is, `PathBuf::push`) gives for `base` and
/// `name` on Unix: `name` alone when it is absolute; else `base`, a `/` when
/// `base` is non-empty and does not end in one, and `name`.
pub open spec fn joined(base: Seq<char>, name: Seq<char>) -> Seq<char> {
    if name.len() > 0 && name[0] == '/' {
        name
    } else if base.len() == 0 || base.last() == '/' {
        base + name
    } else {
        base + seq!['/'] + name
    }
}

/// `Path::new(base).join(name)` as text. Claimed: the result is
/// [`joined`]`(base, name)`, as `PathBuf::push` builds it on Unix.
#[verifier::external_body]
pub(crate) fn path_join(base: &str, name: &str) -> (r: String)
    ensures
        r@ == joined(base@, name@),
{
    std::path::Path::new(base).join(name).to_string_lossy().into_owned()
}

/// What `PathBuf::set_extension(ext)` leaves of `path`.
pub uninterp spec fn with_extension(path: Seq<char>, ext: Seq<char>) -> Seq<char>;

/// Position of the last `.` in `name`, or -1 when it holds none.
pub open spec fn last_dot(name: Seq<char>) -> int
    decreases name.len(),
{
    if name.len() == 0 {
        -1
    } else if name.last() == '.' {
        name.len() - 1
    } else {
        last_dot(name.drop_last())
    }
}

/// The stem of a file name, as std documents `Path::file_stem`: the whole
/// name when it has no `.` after its first character, else the part before
/// its last `.`.
pub open spec fn file_stem(name: Seq<char>) -> Seq<char> {
    if last_dot(name) <= 0 {
        name
    } else {
        name.take(last_dot(name))
    }
}

/// `path` has a file name: its last component is neither the root, `.`
/// nor `..`.
pub open spec fn has_file_name(path: Seq<char>) -> bool {
    let c = components_of(path);
    c.len() > 0 && c.last() != "/"@ && c.last() != "."@ && c.last() != ".."@
}

/// `path` after `PathBuf::set_extension(ext)`, as text. `set_extension`
/// panics on an extension holding a path separator, so `ext` may hold none.
/// Claimed, as std documents it: a path without a file name is left as it
/// is; otherwise, for a non-empty `ext`, the last component becomes the
/// file stem, `.` and `ext`, the others staying. The exact text (trailing
/// separators, `.` pieces) is left to the name.
#[verifier::external_body]
pub(crate) fn path_with_extension(path: &str, ext: &str) -> (r: String)
    requires
        forall|i: int| 0 <= i < ext@.len() ==> ext@[i] != '/',
    ensures
        r@ == with_extension(path@, ext@),
        !has_file_name(path@) ==> r@ == path@,
        has_file_name(path@) && ext@.len() > 0 ==> components_of(r@)
            == components_of(path@).drop_last().push(file_stem(components_of(path@).last()) + "."@ + ext@),
{
    let mut p = std::path::PathBuf::from(path);
    p.set_extension(ext);
    p.to_string_lossy().into_owned()
}

/// The pieces of `s` between `/` separators, in order, empty ones included.
pub open spec fn segments(s: Seq<char>) -> Seq<Seq<char>>
    decreases s.len(),
{
    let p = first_pos(s, '/', '/') as int;
    if p < s.len() {
        seq![s.take(p)] + segments(s.skip(p + 1))
    } else {
        seq![s]
    }
}

/// The components `Path::components` yields for `path` on Unix, each as
/// text, as std documents them: the root `/` first for an absolute path, or
/// `.` first for a path that is `.` or starts with `./`; then the pieces
/// between separators, leaving out empty ones (repeated and trailing
/// separators) and `.`.
pub open spec fn components_of(path: Seq<char>) -> Seq<Seq<char>> {
    let lead: Seq<Seq<char>> = if path.len() > 0 && path[0] == '/' {
        seq!["/"@]
    } else if path == "."@ || (path.len() >= 2 && path[0] == '.' && path[1] == '/') {
        seq!["."@]
    } else {
        Seq::empty()
    };
    lead + segments(path).filter(kept_segment())
}

/// Which pieces between separators are components: all but empty ones
/// and `.`.
pub open spec fn kept_segment() -> spec_fn(Seq<char>) -> bool {
    |g: Seq<char>| g.len() > 0 && g != "."@
}

/// `g` holds no separator.
pub open spec fn no_slash(g: Seq<char>) -> bool {
    forall|j: int| 0 <= j < g.len() ==> g[j] != '/'
}

/// A component that pushing adds as it stands: a non-empty name without
/// separators that is not `.`.
pub open spec fn plain_component(g: Seq<char>) -> bool {
    g.len() > 0 && no_slash(g) && g != "."@
}

/// `path` is relative and does not start with a `.` component, so
/// `Path::components` yields no root or `.` ahead of its pieces.
pub open spec fn lead_free(path: Seq<char>) -> bool {
    &&& !(path.len() > 0 && path[0] == '/')
    &&& path != "."@
    &&& !(path.len() >= 2 && path[0] == '.' && path[1] == '/')
}

proof fn lemma_first_slash(s: Seq<char>)
    ensures
        first_pos(s, '/', '/') <= s.len(),
        forall|j: int| 0 <= j < first_pos(s, '/', '/') ==> s[j] != '/',
        first_pos(s, '/', '/') < s.len() ==> s[first_pos(s, '/', '/') as int] == '/',
    decreases s.len(),
{
    if s.len() > 0 && s[0] != '/' {
        lemma_first_slash(s.drop_first());
        assert forall|j: int| 0 <= j < first_pos(s, '/', '/') implies s[j] != '/' by {
            if j > 0 {
                assert(s[j] == s.drop_first()[j - 1]);
            }
        }
    }
}

proof fn lemma_segments_plain(w: Seq<char>)
    requires
        no_slash(w),
    ensures
        segments(w) == seq![w],
{
    assert forall|j: int| 0 <= j < w.len() implies #[trigger] w[j] != '/' && w[j] != '/' by {}
    lemma_first_pos_at(w, '/', '/', w.len() as int);
    assert(w.take(w.len() as int) =~= w);
}

/// Splitting at a separator: the pieces of `a`, `/`, `b` are those of `a`
/// followed by those of `b`.
proof fn lemma_segments_split(a: Seq<char>, b: Seq<char>)
    ensures
        segments(a + seq!['/'] + b) == segments(a) + segments(b),
    decreases a.len(),
{
    let s = a + seq!['/'] + b;
    lemma_first_slash(a);
    let p = first_pos(a, '/', '/') as int;
    assert forall|j: int| 0 <= j < p implies #[trigger] s[j] != '/' && s[j] != '/' by {
        assert(s[j] == a[j]);
    }
    if p < a.len() {
        assert(s[p] == a[p]);
        lemma_first_pos_at(s, '/', '/', p);
        assert(s.take(p) =~= a.take(p));
        assert(s.skip(p + 1) =~= a.skip(p + 1) + seq!['/'] + b);
        lemma_segments_split(a.skip(p + 1), b);
        assert(segments(s) =~= segments(a) + segments(b));
    } else {
        assert(s[p] == '/');
        lemma_first_pos_at(s, '/', '/', p);
        assert(s.take(p) =~= a);
        assert(s.skip(p + 1) =~= b);
        assert(a.take(a.len() as int) =~= a);
        assert(segments(s) =~= segments(a) + segments(b));
    }
}

proof fn lemma_segments_no_slash(s: Seq<char>)
    ensures
        forall|i: int| 0 <= i < segments(s).len() ==> no_slash(#[trigger] segments(s)[i]),
    decreases s.len(),
{
    lemma_first_slash(s);
    let p = first_pos(s, '/', '/') as int;
    if p < s.len() {
        lemma_segments_no_slash(s.skip(p + 1));
        let t = segments(s.skip(p + 1));
        assert forall|i: int| 0 <= i < segments(s).len() implies no_slash(#[trigger] segments(s)[i]) by {
            if i > 0 {
                assert(segments(s)[i] == t[i - 1]);
            } else {
                assert(segments(s)[0] == s.take(p));
            }
        }
    }
}

proof fn lemma_filter_no_slash(s: Seq<Seq<char>>, pred: spec_fn(Seq<char>) -> bool)
    requires
        forall|i: int| 0 <= i < s.len() ==> no_slash(#[trigger] s[i]),
    ensures
        forall|i: int| 0 <= i < s.filter(pred).len() ==> no_slash(#[trigger] s.filter(pred)[i]),
    decreases s.len(),
{
    reveal(Seq::filter);
    if s.len() > 0 {
        let d = s.drop_last();
        assert forall|i: int| 0 <= i < d.len() implies no_slash(#[trigger] d[i]) by {
            assert(d[i] == s[i]);
        }
        lemma_filter_no_slash(d, pred);
        assert(no_slash(s[s.len() - 1]));
        let f = s.filter(pred);
        assert forall|i: int| 0 <= i < f.len() implies no_slash(#[trigger] f[i]) by {
            if i < d.filter(pred).len() {
                assert(f[i] == d.filter(pred)[i]);
            }
        }
    }
}

proof fn lemma_filter_all(s: Seq<Seq<char>>, pred: spec_fn(Seq<char>) -> bool)
    requires
        forall|i: int| 0 <= i < s.len() ==> pred(#[trigger] s[i]),
    ensures
        s.filter(pred) == s,
    decreases s.len(),
{
    reveal(Seq::filter);
    if s.len() > 0 {
        let d = s.drop_last();
        assert forall|i: int| 0 <= i < d.len() implies pred(#[trigger] d[i]) by {
            assert(d[i] == s[i]);
        }
        lemma_filter_all(d, pred);
        assert(pred(s[s.len() - 1]));
        assert(d.push(s.last()) =~= s);
    }
}

/// Pushing plain components: the path starts with the first part's first
/// character and ends with the last part's last one, and its pieces between
/// separators are the parts.
proof fn lemma_pushed_plain(parts: Seq<Seq<char>>)
    requires
        parts.len() > 0,
        forall|i: int| 0 <= i < parts.len() ==> plain_component(#[trigger] parts[i]),
    ensures
        pushed_path(parts).len() > 0,
        pushed_path(parts)[0] == parts[0][0],
        pushed_path(parts).last() == parts.last().last(),
        segments(pushed_path(parts)) == parts,
    decreases parts.len(),
{
    let w = parts.last();
    assert(plain_component(parts[parts.len() - 1]));
    assert(w[0] != '/');
    let d = parts.drop_last();
    if parts.len() == 1 {
        assert(pushed_path(d).len() == 0);
        assert(pushed_path(parts) =~= w);
        lemma_segments_plain(w);
        assert(seq![w] =~= parts);
    } else {
        assert forall|i: int| 0 <= i < d.len() implies plain_component(#[trigger] d[i]) by {
            assert(d[i] == parts[i]);
        }
        lemma_pushed_plain(d);
        let pp = pushed_path(d);
        assert(plain_component(parts[parts.len() - 2]));
        assert(d.last() == parts[parts.len() - 2]);
        assert(pp.last() != '/');
        assert(pushed_path(parts) == pp + seq!['/'] + w);
        lemma_segments_split(pp, w);
        lemma_segments_plain(w);
        assert(d.push(w) =~= parts);
        assert(d[0] == parts[0]);
    }
}

/// Pushing plain components one after another gives a path whose
/// components are exactly those parts, with no root or `.` ahead of them.
pub proof fn lemma_components_of_pushed(parts: Seq<Seq<char>>)
    requires
        forall|i: int| 0 <= i < parts.len() ==> plain_component(#[trigger] parts[i]),
    ensures
        components_of(pushed_path(parts)) == parts,
        lead_free(pushed_path(parts)),
{
    reveal_strlit(".");
    let path = pushed_path(parts);
    if parts.len() == 0 {
        assert(path.len() == 0);
        lemma_segments_plain(path);
        reveal_with_fuel(Seq::filter, 2);
        assert(seq![path].filter(kept_segment()) =~= Seq::<Seq<char>>::empty());
        assert(components_of(path) =~= parts);
    } else {
        lemma_pushed_plain(parts);
        assert(plain_component(parts[0]));
        if path == "."@ {
            assert(no_slash(path));
            lemma_segments_plain(path);
            assert(parts[0] == path);
        }
        if path.len() >= 2 && path[0] == '.' && path[1] == '/' {
            assert forall|j: int| 0 <= j < 1 implies #[trigger] path[j] != '/' && path[j] != '/' by {}
            lemma_first_pos_at(path, '/', '/', 1);
            assert(segments(path)[0] == path.take(1));
            assert(path.take(1) =~= "."@);
        }
        assert forall|i: int| 0 <= i < parts.len() implies #[trigger] kept_segment()(parts[i]) by {
            assert(plain_component(parts[i]));
        }
        lemma_filter_all(parts, kept_segment());
        assert(components_of(path) =~= parts);
    }
}

proof fn lemma_kept_joined(a: Seq<char>, r: Seq<char>)
    requires
        a.len() > 0,
        !(r.len() > 0 && r[0] == '/'),
    ensures
        segments(joined(a, r)).filter(kept_segment())
            == segments(a).filter(kept_segment()) + segments(r).filter(kept_segment()),
{
    let j = joined(a, r);
    let k = kept_segment();
    let e = Seq::<char>::empty();
    if a.last() == '/' {
        let a0 = a.drop_last();
        assert(a =~= a0 + seq!['/'] + e);
        assert(j =~= a0 + seq!['/'] + r);
        lemma_segments_split(a0, e);
        lemma_segments_split(a0, r);
        lemma_segments_plain(e);
        Seq::filter_distributes_over_add(segments(a0), seq![e], k);
        Seq::filter_distributes_over_add(segments(a0), segments(r), k);
        assert(seq![e].filter(k) =~= Seq::<Seq<char>>::empty()) by {
            reveal_with_fuel(Seq::filter, 2);
        }
        assert(segments(a).filter(k) =~= segments(a0).filter(k));
    } else {
        assert(j =~= a + seq!['/'] + r);
        lemma_segments_split(a, r);
        Seq::filter_distributes_over_add(segments(a), segments(r), k);
    }
}

/// Joining a relative path that has no leading `.` onto an absolute one:
/// the components of the result are those of `a` followed by those of `r`.
pub proof fn lemma_components_joined(a: Seq<char>, r: Seq<char>)
    requires
        a.len() > 0,
        a[0] == '/',
        lead_free(r),
    ensures
        components_of(joined(a, r)) == components_of(a) + components_of(r),
{
    reveal_strlit(".");
    reveal_strlit("/");
    lemma_kept_joined(a, r);
    let j = joined(a, r);
    assert(j[0] == '/');
    assert(components_of(j) =~= components_of(a) + components_of(r));
}

/// Every component of `path` after a leading root or `.` is plain.
pub proof fn lemma_components_plain(path: Seq<char>)
    ensures
        forall|i: int| 0 <= i < segments(path).filter(kept_segment()).len()
            ==> plain_component(#[trigger] segments(path).filter(kept_segment())[i]),
{
    let k = kept_segment();
    lemma_segments_no_slash(path);
    lemma_filter_no_slash(segments(path), k);
    let f = segments(path).filter(k);
    assert forall|i: int| 0 <= i < f.len() implies plain_component(#[trigger] f[i]) by {
        segments(path).lemma_filter_pred(k, i);
    }
}

/// `Path::new(path).components()`, each component as text. Claimed: the
/// result is [`components_of`]`(path)`.
#[verifier::external_body]
pub(crate) fn path_components(path: &str) -> (r: Vec<String>)
    ensures
        string_views(r@) == components_of(path@),
{
    std::path::Path::new(path).components().map(|c| c.as_os_str().to_string_lossy().into_owned()).collect()
}

/// The path that pushing each of `parts` in turn onto an empty `PathBuf`
/// builds: the parts joined one after another.
pub open spec fn pushed_path(parts: Seq<Seq<char>>) -> Seq<char>
    decreases parts.len(),
{
    if parts.len() == 0 {
        Seq::empty()
    } else {
        joined(pushed_path(parts.drop_last()), parts.last())
    }
}

/// An empty `PathBuf` with each of `parts` pushed in turn, as text.
/// Claimed: the result is [`pushed_path`]`(parts)`.
#[verifier::external_body]
pub(crate) fn path_from_parts(parts: &Vec<String>) -> (r: String)
    ensures
        r@ == pushed_path(string_views(parts@)),
{
    let mut p = std::path::PathBuf::new();
    for part in parts {
        p.push(part);
    }
    p.to_string_lossy().into_owned()
}

/// What `Path::parent` gives for `path`.
pub uninterp spec fn parent_of(path: Seq<char>) -> Option<Seq<char>>;

/// `Path::new(path).parent()`, as text. Claimed, as std documents it: there
/// is no parent for the empty path or one that ends in the root; otherwise
/// the parent is the path without its final component. Which text stands
/// for that parent (trailing separators, `.` pieces) is left to the name.
#[verifier::external_body]
pub(crate) fn path_parent(path: &str) -> (r: Option<String>)
    ensures
        match r {
            Some(p) => parent_of(path@) == Some(p@),
            None => parent_of(path@) is None,
        },
        r is None <==> (components_of(path@).len() == 0 || components_of(path@).last() == "/"@),
        r matches Some(p) ==> components_of(p@) == components_of(path@).drop_last(),
{
    std::path::Path::new(path).parent().map(|p| p.to_string_lossy().into_owned())
}

} // verus!
