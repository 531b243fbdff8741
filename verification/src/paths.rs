//! File-system paths, held as text (`Seq<char>`), with Unix separators.
//!
//! Joining is stated and proved here. What `std::path` computes from the
//! components of a path (its file name, its parent, equality and order of
//! paths) is named and obtained from `std::path` itself.
use vstd::prelude::*;

verus! {

/// `base.join(comp)` on Unix: an absolute `comp` replaces `base`; otherwise
/// `comp` is appended, with a `/` in between unless `base` is empty or already
/// ends with one.
pub open spec fn spec_join(base: Seq<char>, comp: Seq<char>) -> Seq<char> {
    if comp.len() > 0 && comp[0] == '/' {
        comp
    } else if base.len() == 0 || base.last() == '/' {
        base + comp
    } else {
        base + seq!['/'] + comp
    }
}

/// The view of an optional text.
pub open spec fn opt_view(o: Option<String>) -> Option<Seq<char>> {
    match o {
        Some(s) => Some(s@),
        None => None,
    }
}

/// `Path::join` for Unix paths.
pub fn join_path(base: &str, comp: &str) -> (r: String)
    ensures
        r@ == spec_join(base@, comp@),
{
    let comp_len = comp.unicode_len();
    if comp_len > 0 && comp.get_char(0) == '/' {
        return String::from_str(comp);
    }
    let base_len = base.unicode_len();
    let mut r = String::from_str(base);
    if base_len > 0 && base.get_char(base_len - 1) != '/' {
        crate::text::push_char(&mut r, '/');
    }
    r.append(comp);
    r
}

/// The final component of a path, as `Path::file_name` gives it.
pub uninterp spec fn std_file_name(path: Seq<char>) -> Option<Seq<char>>;

/// The path without its final component, as `Path::parent` gives it.
pub uninterp spec fn std_parent(path: Seq<char>) -> Option<Seq<char>>;

/// Whether two paths have the same components (`Path`'s `==`).
pub uninterp spec fn std_path_eq(a: Seq<char>, b: Seq<char>) -> bool;

/// Whether path `a` orders before path `b`, component by component (`Path`'s `<`).
pub uninterp spec fn std_path_lt(a: Seq<char>, b: Seq<char>) -> bool;

/// The text of `p` after its last `/`; all of `p` when it has none.
pub open spec fn after_last_slash(p: Seq<char>) -> Seq<char>
    decreases p.len(),
{
    if p.len() == 0 {
        p
    } else if p.last() == '/' {
        seq![]
    } else {
        after_last_slash(p.drop_last()).push(p.last())
    }
}

/// `n` is a normal path component: not empty, without separator, neither
/// `.` nor `..`.
pub open spec fn is_normal_component(n: Seq<char>) -> bool {
    &&& n.len() > 0
    &&& forall|i: int| 0 <= i < n.len() ==> n[i] != '/'
    &&& n != seq!['.']
    &&& n != seq!['.', '.']
}

/// A path that every platform splits at `/` alone: it holds no `\` and no
/// `:` (so no drive or other prefix) and does not begin with `//` (so no
/// network share).
pub open spec fn plain_path(p: Seq<char>) -> bool {
    &&& forall|i: int| 0 <= i < p.len() ==> p[i] != '\\' && p[i] != ':'
    &&& !(p.len() >= 2 && p[0] == '/' && p[1] == '/')
}

/// The file name of a plain path that ends in a normal component: that
/// component. `None` where this short rule does not decide it.
pub open spec fn simple_file_name(p: Seq<char>) -> Option<Seq<char>> {
    if plain_path(p) && is_normal_component(after_last_slash(p)) {
        Some(after_last_slash(p))
    } else {
        None
    }
}

/// `d` names a directory without a trailing separator and without a
/// trailing `.` component.
pub open spec fn is_simple_dir(d: Seq<char>) -> bool {
    &&& d.len() > 0
    &&& d.last() != '/'
    &&& !(d.len() >= 2 && d.last() == '.' && d[d.len() - 2] == '/')
}

/// The parent of a plain path `d/n`, with `n` a normal component and `d` a
/// simple directory: `d`. `None` where this short rule does not decide it.
pub open spec fn simple_parent(p: Seq<char>) -> Option<Seq<char>> {
    let n = after_last_slash(p);
    let dl = p.len() - n.len() - 1;
    if plain_path(p) && is_normal_component(n) && dl > 0 && is_simple_dir(p.take(dl)) {
        Some(p.take(dl))
    } else {
        None
    }
}

/// `Path::file_name`: the final component of `path` unless it is `..`; the
/// result is a function of `path` alone, named `std_file_name`. As
/// documented, a path whose final component is a normal one has that
/// component as its file name; this is stated for plain paths, where every
/// platform reads the components alike.
#[verifier::external_body]
pub fn file_name(path: &str) -> (r: Option<String>)
    ensures
        opt_view(r) == std_file_name(path@),
        simple_file_name(path@) is Some ==> opt_view(r) == simple_file_name(path@),
{
    std::path::Path::new(path).file_name().map(|n| n.to_string_lossy().into_owned())
}

/// `Path::parent`: `path` without its final component, `None` for a root or
/// an empty path; the result is a function of `path` alone, named
/// `std_parent`. As documented, the parent of `d/n` with `n` a normal
/// component is `d`; this is stated for plain paths and for `d` without a
/// trailing separator or `.` component, which `Path::parent` would trim.
#[verifier::external_body]
pub fn parent(path: &str) -> (r: Option<String>)
    ensures
        opt_view(r) == std_parent(path@),
        simple_parent(path@) is Some ==> opt_view(r) == simple_parent(path@),
{
    std::path::Path::new(path).parent().map(|p| p.to_string_lossy().into_owned())
}

/// `Path`'s `==`, which compares the components of the two paths; named
/// `std_path_eq`. `Path` is `Eq`: equal texts are equal paths, and the
/// comparison does not depend on the order of its operands.
#[verifier::external_body]
pub fn path_eq(a: &str, b: &str) -> (r: bool)
    ensures
        r == std_path_eq(a@, b@),
        r == std_path_eq(b@, a@),
        a@ == b@ ==> r,
{
    std::path::Path::new(a) == std::path::Path::new(b)
}

/// `Path`'s `<`, which orders paths by their components; named `std_path_lt`.
/// `Path` is totally ordered (`Ord`), so `a < b` excludes `b < a`.
#[verifier::external_body]
pub fn path_lt(a: &str, b: &str) -> (r: bool)
    ensures
        r == std_path_lt(a@, b@),
        r ==> !std_path_lt(b@, a@),
        a@ == b@ ==> !r,
{
    std::path::Path::new(a) < std::path::Path::new(b)
}

/// Joining a relative path keeps the base as the beginning and the joined
/// path as the end of the result.
pub proof fn lemma_join_relative(base: Seq<char>, comp: Seq<char>)
    requires
        comp.len() == 0 || comp[0] != '/',
    ensures
        spec_join(base, comp).len() >= base.len() + comp.len(),
        spec_join(base, comp).take(base.len() as int) == base,
        spec_join(base, comp).skip(spec_join(base, comp).len() - comp.len()) == comp,
{
    let j = spec_join(base, comp);
    assert(j.take(base.len() as int) =~= base);
    assert(j.skip(j.len() - comp.len()) =~= comp);
}

/// Text that ends in `/` followed by a part without `/` has that part after
/// its last `/`.
pub proof fn lemma_after_last_slash_append(d: Seq<char>, n: Seq<char>)
    requires
        d.len() == 0 || d.last() == '/',
        forall|i: int| 0 <= i < n.len() ==> n[i] != '/',
    ensures
        after_last_slash(d + n) == n,
    decreases n.len(),
{
    if n.len() == 0 {
        assert(d + n =~= d);
    } else {
        let m = n.drop_last();
        lemma_after_last_slash_append(d, m);
        assert((d + n).drop_last() =~= d + m);
        assert(m.push(n.last()) =~= n);
    }
}

/// Joining a component without `/` puts it after the last `/`, and leaves
/// what comes before it as the base (with a separator added where needed).
pub proof fn lemma_join_last_component(base: Seq<char>, n: Seq<char>)
    requires
        n.len() > 0,
        forall|i: int| 0 <= i < n.len() ==> n[i] != '/',
    ensures
        after_last_slash(spec_join(base, n)) == n,
        is_simple_dir(base) ==> spec_join(base, n).take(spec_join(base, n).len() - n.len() - 1)
            == base,
{
    if base.len() == 0 || base.last() == '/' {
        lemma_after_last_slash_append(base, n);
    } else {
        let bs = base + seq!['/'];
        assert(spec_join(base, n) =~= bs + n);
        lemma_after_last_slash_append(bs, n);
        assert((bs + n).take(base.len() as int) =~= base);
    }
}

} // verus!
