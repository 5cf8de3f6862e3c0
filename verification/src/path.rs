//! Filesystem paths, held as strings, and the `std::path` operations the
//! library builds them with.

use vstd::prelude::*;

verus! {

/// A path separator on some platform.
pub open spec fn is_separator(c: char) -> bool {
    c == '/' || c == '\\'
}

/// A single, non-empty path component with no separator and no drive colon.
pub open spec fn plain_name(s: Seq<char>) -> bool {
    &&& s.len() > 0
    &&& forall|i: int| 0 <= i < s.len() ==> !is_separator(#[trigger] s[i]) && s[i] != ':'
}

/// A non-empty relative path with no drive colon: it does not start with a
/// separator.
pub open spec fn relative_part(s: Seq<char>) -> bool {
    &&& s.len() > 0
    &&& !is_separator(s[0])
    &&& forall|i: int| 0 <= i < s.len() ==> #[trigger] s[i] != ':'
}

/// `r` is `base` with `part` adjoined, as `PathBuf::push` adjoins a relative
/// part: directly when `base` is empty or ends with `/`; after one separator
/// when `base` ends otherwise, except that after a backslash or `:` the separator
/// may be left out (a separator on one platform, or a drive, on the other).
pub open spec fn adjoined(base: Seq<char>, part: Seq<char>, r: Seq<char>) -> bool {
    if base.len() == 0 || base.last() == '/' {
        r == base + part
    } else {
        ||| ((base.last() == '\\' || base.last() == ':') && r == base + part)
        ||| (r.len() == base.len() + 1 + part.len() && is_separator(r[base.len() as int]) && r == base + seq![r[base.len() as int]] + part)
    }
}

/// `s` does not begin with two separators and `?`, as every verbatim prefix
/// (`\\?\`) does: the one kind of base onto which `PathBuf::push` rewrites
/// the path instead of appending.
pub open spec fn no_verbatim_prefix(s: Seq<char>) -> bool {
    !(s.len() >= 3 && is_separator(s[0]) && is_separator(s[1]) && s[2] == '?')
}

/// Adjoining a relative part that does not begin with `?` to a base without a
/// verbatim prefix gives a path without one.
pub proof fn lemma_adjoined_no_prefix(base: Seq<char>, part: Seq<char>, r: Seq<char>)
    requires
        adjoined(base, part, r),
        no_verbatim_prefix(base),
        relative_part(part),
        part[0] != '?',
    ensures
        no_verbatim_prefix(r),
{
    if r.len() >= 3 && is_separator(r[0]) && is_separator(r[1]) && r[2] == '?' {
        if base.len() >= 3 {
            assert(r[0] == base[0] && r[1] == base[1] && r[2] == base[2]);
        } else if r == base + part {
            if base.len() == 0 {
                assert(r[0] == part[0]);
            } else if base.len() == 1 {
                assert(r[1] == part[0]);
            } else {
                assert(r[2] == part[0]);
            }
        } else {
            if base.len() == 1 {
                assert(r[2] == part[0]);
            } else if base.len() == 2 {
                assert(r[2] == r[base.len() as int]);
            }
        }
    }
}

/// `s` ends with `suffix`.
pub open spec fn ends_with(s: Seq<char>, suffix: Seq<char>) -> bool {
    s.len() >= suffix.len() && s.subrange(s.len() - suffix.len(), s.len() as int) == suffix
}

/// Calls `std::path::Path::join`. The contract claims what its documentation
/// (with that of `PathBuf::push`) shows for a relative part and a base without
/// a verbatim prefix: the part is appended, after a separator unless the base
/// is empty or already ends with one. Which separator, and whether one follows
/// a backslash or `:`, depend on the platform and are left open.
#[verifier::external_body]
pub(crate) fn path_join(base: &str, part: &str) -> (r: String)
    ensures
        relative_part(part@) && no_verbatim_prefix(base@) ==> adjoined(base@, part@, r@),
{
    std::path::Path::new(base).join(part).to_string_lossy().into_owned()
}

/// A plain name is a relative path.
pub proof fn lemma_plain_is_relative(s: Seq<char>)
    requires
        plain_name(s),
    ensures
        relative_part(s),
{
    assert(!is_separator(s[0]));
}

/// A normal file name: a plain name other than `.` and `..`.
pub open spec fn normal_name(s: Seq<char>) -> bool {
    plain_name(s) && s != seq!['.'] && s != seq!['.', '.']
}

/// The text of a path written as the normal names `parts` with `/` between
/// each two, after a leading `/` when `rooted`.
pub open spec fn path_text(rooted: bool, parts: Seq<Seq<char>>) -> Seq<char> {
    if rooted {
        seq!['/'] + slash_joined(parts)
    } else {
        slash_joined(parts)
    }
}

/// Every part is a normal name.
pub open spec fn all_normal(parts: Seq<Seq<char>>) -> bool {
    forall|i: int| 0 <= i < parts.len() ==> normal_name(#[trigger] parts[i])
}

/// `s` is written as normal names with `/` between them (after a leading `/`
/// when `rooted`): on every platform its components are a root when `rooted`,
/// then the names `parts`, and it has no prefix.
pub open spec fn written_path(rooted: bool, parts: Seq<Seq<char>>, s: Seq<char>) -> bool {
    all_normal(parts) && path_text(rooted, parts) == s
}

/// `s` has no backslash and its last component is `..`: it is `..` or ends
/// with `/..`.
pub open spec fn ends_in_parent(s: Seq<char>) -> bool {
    &&& forall|i: int| 0 <= i < s.len() ==> #[trigger] s[i] != '\\'
    &&& (s == seq!['.', '.'] || (s.len() >= 3 && s.skip(s.len() - 3) == seq!['/', '.', '.']))
}

/// `s` reads the same on every platform with `/` as its only separator: it
/// has no backslash and no colon, and does not begin with two slashes (a
/// network share on some platforms), so it has no prefix.
pub open spec fn slash_readable(s: Seq<char>) -> bool {
    &&& forall|i: int| 0 <= i < s.len() ==> #[trigger] s[i] != '\\' && s[i] != ':'
    &&& !(s.len() >= 2 && s[0] == '/' && s[1] == '/')
}

/// The names of the components of `s` read with `/` as separator: its
/// `/`-separated segments without the empty ones and `.` (which `Path`
/// drops, or reads as no name).
pub open spec fn segment_names(s: Seq<char>) -> Seq<Seq<char>> {
    crate::text::split_on(s, '/').filter(|seg: Seq<char>| seg.len() > 0 && seg != seq!['.'])
}

/// The file name of a path read with `/` as separator: its last name, unless
/// it has none or that name is `..`.
pub open spec fn slash_file_name(s: Seq<char>) -> Option<Seq<char>> {
    let names = segment_names(s);
    if names.len() == 0 || names.last() == seq!['.', '.'] {
        None
    } else {
        Some(names.last())
    }
}

/// Calls `std::path::Path::file_name`: the final component of a path, if it
/// is a normal name. The contract claims what its documentation says and
/// shows: a path that reads the same with `/` as its only separator has its
/// last name as its file name (repeated separators and `.` components do not
/// count), and none when it has no names or ends in `..`; in particular a
/// path written as normal names has the last of them, and the empty path and
/// the root have none. Other paths depend on the platform and are left open.
#[verifier::external_body]
pub(crate) fn path_file_name(path: &str) -> (r: Option<String>)
    ensures
        normal_name(path@) ==> r is Some && r->0@ == path@,
        slash_readable(path@) ==> match slash_file_name(path@) {
            Some(name) => r is Some && r->0@ == name,
            None => r is None,
        },
        forall|rooted: bool, parts: Seq<Seq<char>>| #[trigger] written_path(rooted, parts, path@) ==>
            if parts.len() > 0 { r is Some && r->0@ == parts.last() } else { r is None },
        ends_in_parent(path@) ==> r is None,
{
    match std::path::Path::new(path).file_name() {
        Some(name) => Some(name.to_string_lossy().into_owned()),
        None => None,
    }
}

/// Calls `std::path::Path::with_file_name`. The contract claims what the
/// documentation of `PathBuf::set_file_name` says (the path's parent, then the
/// name pushed onto it) and shows: a normal name ends the result, and for a
/// path written as normal names the result is its parent's text with the name
/// adjoined. Which separator goes between them depends on the platform.
#[verifier::external_body]
pub(crate) fn path_with_file_name(path: &str, name: &str) -> (r: String)
    ensures
        normal_name(name@) ==> ends_with(r@, name@),
        normal_name(name@) ==> forall|rooted: bool, parts: Seq<Seq<char>>|
            #[trigger] written_path(rooted, parts, path@) && parts.len() > 0 ==> adjoined(path_text(rooted, parts.drop_last()), name@, r@),
{
    std::path::Path::new(path).with_file_name(name).to_string_lossy().into_owned()
}

/// `s` is written as normal names with `/` between them, rooted or not.
pub open spec fn is_written_path(s: Seq<char>) -> bool {
    exists|rooted: bool, parts: Seq<Seq<char>>| written_path(rooted, parts, s)
}

/// `path` lies below `root`: both are written as normal names with `/`
/// between them, both rooted or both not, and the names of `root` begin those
/// of `path`.
pub open spec fn under_root(root: Seq<char>, path: Seq<char>) -> bool {
    exists|rooted: bool, b: Seq<Seq<char>>, p: Seq<Seq<char>>| #![trigger written_path(rooted, b, root), written_path(rooted, p, path)]
        written_path(rooted, b, root) && written_path(rooted, p, path) && b.is_prefix_of(p)
}

/// The path of `path` below `root`, when `under_root(root, path)`: the names
/// of `path` after those of `root`, with `/` between each two.
pub open spec fn path_below(root: Seq<char>, path: Seq<char>) -> Seq<char> {
    let (rooted, b, p) = choose|rooted: bool, b: Seq<Seq<char>>, p: Seq<Seq<char>>|
        written_path(rooted, b, root) && written_path(rooted, p, path) && b.is_prefix_of(p);
    slash_joined(p.skip(b.len() as int))
}

/// Calls `std::path::Path::strip_prefix`: the part of `path` below `base`, or
/// `None` when `base` is not a prefix of it. The contract claims what its
/// documentation (with that of `Path::starts_with`) says and shows, for paths
/// written as normal names with `/` between them, both rooted or both not:
/// there is a result exactly when the names of `base` begin those of `path`,
/// and it is the remaining names with `/` between them. Other paths depend on
/// the platform and are left open.
#[verifier::external_body]
pub(crate) fn path_strip_prefix(path: &str, base: &str) -> (r: Option<String>)
    ensures
        forall|rooted: bool, b: Seq<Seq<char>>, p: Seq<Seq<char>>|
            #![trigger written_path(rooted, b, base@), written_path(rooted, p, path@)]
            written_path(rooted, b, base@) && written_path(rooted, p, path@) ==> {
                &&& (r is Some <==> b.is_prefix_of(p))
                &&& b.is_prefix_of(p) ==> r->0@ == slash_joined(p.skip(b.len() as int))
            },
{
    match std::path::Path::new(path).strip_prefix(base) {
        Ok(rest) => Some(rest.to_string_lossy().into_owned()),
        Err(_) => None,
    }
}

/// Calls `std::path::Path::components`, each component as a string. The
/// contract claims what its documentation shows: a relative path written as
/// normal names with `/` between them has those names as its components.
/// Other paths depend on the platform and are left open.
#[verifier::external_body]
pub(crate) fn path_components(path: &str) -> (r: Vec<String>)
    ensures
        forall|parts: Seq<Seq<char>>| #[trigger] written_path(false, parts, path@) ==> string_views(r@) == parts,
{
    std::path::Path::new(path).components().map(|c| c.as_os_str().to_string_lossy().into_owned()).collect()
}

/// Calls `==` on two `std::path::Path`s, which compares them component by
/// component. The contract claims that equal texts are equal paths, and that
/// two paths written as normal names with `/` between them are equal exactly
/// when both are rooted or both not and their names are the same. Other
/// paths depend on the platform and are left open.
#[verifier::external_body]
pub(crate) fn path_eq(a: &str, b: &str) -> (r: bool)
    ensures
        a@ == b@ ==> r,
        forall|ra: bool, pa: Seq<Seq<char>>, rb: bool, pb: Seq<Seq<char>>|
            #![trigger written_path(ra, pa, a@), written_path(rb, pb, b@)]
            written_path(ra, pa, a@) && written_path(rb, pb, b@) ==> (r <==> (ra == rb && pa == pb)),
{
    std::path::Path::new(a) == std::path::Path::new(b)
}

/// `a` sorts before `b` as text: by their first differing character's code
/// point, or as a proper prefix (the order of their UTF-8 bytes).
pub open spec fn text_before(a: Seq<char>, b: Seq<char>) -> bool
    decreases a.len(),
{
    if a.len() == 0 {
        b.len() > 0
    } else if b.len() == 0 {
        false
    } else if a[0] == b[0] {
        text_before(a.drop_first(), b.drop_first())
    } else {
        (a[0] as int) < (b[0] as int)
    }
}

/// The names `p` sort before the names `q`: by their first differing name,
/// or as a proper prefix.
pub open spec fn names_before(p: Seq<Seq<char>>, q: Seq<Seq<char>>) -> bool
    decreases p.len(),
{
    if p.len() == 0 {
        q.len() > 0
    } else if q.len() == 0 {
        false
    } else if p[0] == q[0] {
        names_before(p.drop_first(), q.drop_first())
    } else {
        text_before(p[0], q[0])
    }
}

/// `text_before` is a strict total order.
pub proof fn lemma_text_before(a: Seq<char>, b: Seq<char>, c: Seq<char>)
    ensures
        !text_before(a, a),
        text_before(a, b) ==> !text_before(b, a),
        text_before(a, b) && text_before(b, c) ==> text_before(a, c),
        a != b ==> text_before(a, b) || text_before(b, a),
    decreases a.len(),
{
    if a.len() == 0 && b.len() == 0 {
        assert(a =~= b);
    }
    if a.len() > 0 && b.len() > 0 && a[0] != b[0] {
        assert((a[0] as int) != (b[0] as int));
    }
    if a.len() > 0 {
        lemma_text_before(a.drop_first(), a.drop_first(), a.drop_first());
        if b.len() > 0 {
            if c.len() > 0 {
                lemma_text_before(a.drop_first(), b.drop_first(), c.drop_first());
            } else {
                lemma_text_before(a.drop_first(), b.drop_first(), b.drop_first());
            }
            if a[0] == b[0] && a.drop_first() == b.drop_first() {
                assert(a =~= seq![a[0]] + a.drop_first());
                assert(b =~= seq![b[0]] + b.drop_first());
            }
        }
    }
}

/// `names_before` is a strict total order.
pub proof fn lemma_names_before(p: Seq<Seq<char>>, q: Seq<Seq<char>>, r: Seq<Seq<char>>)
    ensures
        !names_before(p, p),
        names_before(p, q) ==> !names_before(q, p),
        names_before(p, q) && names_before(q, r) ==> names_before(p, r),
        p != q ==> names_before(p, q) || names_before(q, p),
    decreases p.len(),
{
    if p.len() == 0 && q.len() == 0 {
        assert(p =~= q);
    }
    if p.len() > 0 {
        lemma_names_before(p.drop_first(), p.drop_first(), p.drop_first());
        if q.len() > 0 {
            if r.len() > 0 {
                lemma_names_before(p.drop_first(), q.drop_first(), r.drop_first());
                lemma_text_before(p[0], q[0], r[0]);
            } else {
                lemma_names_before(p.drop_first(), q.drop_first(), q.drop_first());
                lemma_text_before(p[0], q[0], q[0]);
            }
            if p[0] == q[0] && p.drop_first() == q.drop_first() {
                assert(p =~= seq![p[0]] + p.drop_first());
                assert(q =~= seq![q[0]] + q.drop_first());
            }
        }
    }
}

/// Calls `<` on two `std::path::Path`s, which compares them component by
/// component, and names by their bytes. The contract claims that order for
/// two paths written as normal names with `/` between them, both rooted or
/// both not: the names compared in order, a name by its characters (whose
/// UTF-8 bytes order as their code points), a proper prefix first. Other
/// paths depend on the platform and are left open.
#[verifier::external_body]
pub(crate) fn path_before(a: &str, b: &str) -> (r: bool)
    ensures
        forall|rooted: bool, pa: Seq<Seq<char>>, pb: Seq<Seq<char>>|
            #![trigger written_path(rooted, pa, a@), written_path(rooted, pb, b@)]
            written_path(rooted, pa, a@) && written_path(rooted, pb, b@) ==> (r <==> names_before(pa, pb)),
{
    std::path::Path::new(a) < std::path::Path::new(b)
}

/// The parts joined with `/` between each two.
pub open spec fn slash_joined(parts: Seq<Seq<char>>) -> Seq<char>
    decreases parts.len(),
{
    if parts.len() == 0 {
        Seq::empty()
    } else if parts.len() == 1 {
        parts[0]
    } else {
        slash_joined(parts.drop_last()) + seq!['/'] + parts.last()
    }
}

/// The views of a list of strings.
pub open spec fn string_views(parts: Seq<String>) -> Seq<Seq<char>> {
    parts.map_values(|p: String| p@)
}

/// Joins the parts with `/` between each two.
pub fn join_with_slash(parts: &[String]) -> (r: String)
    ensures
        r@ == slash_joined(string_views(parts@)),
{
    let mut out = String::new();
    let mut i: usize = 0;
    while i < parts.len()
        invariant
            i <= parts@.len(),
            out@ == slash_joined(string_views(parts@).take(i as int)),
        decreases parts@.len() - i,
    {
        if i > 0 {
            out.append("/");
        }
        out.append(parts[i].as_str());
        proof {
            reveal_strlit("/");
            let views = string_views(parts@);
            assert(views.take(i + 1).drop_last() =~= views.take(i as int));
            if i == 0 {
                assert(views.take(1) =~= seq![parts@[0]@]);
            }
        }
        i = i + 1;
    }
    assert(string_views(parts@).take(parts@.len() as int) =~= string_views(parts@));
    out
}

} // verus!
