//! Lexical handling of the file paths stored in documents: saved documents
//! hold paths relative to their own directory, loaded documents hold them
//! resolved against it. Paths use `/` as separator; nothing here touches
//! the file system, and the working directory is passed in.

use vstd::prelude::*;
use crate::project::assembly_bundle::{AssemblyBundle, AssemblyMember};
use crate::project::definitions::{
    AssemblyDefinition, AttachedInstance, BoardDefinition, DefinitionReference, DefinitionSource,
    ModuleDefinition,
};
use crate::project::document::AvrSimDocument;
use crate::project::shared::{FirmwareSource, PcbSource};
use crate::project::simulation_project::SimulationProject;
use crate::text::{chars_eq, chars_of, push_all, string_of};

verus! {

// ---------------------------------------------------------------------------
// The mathematical model of a path
// ---------------------------------------------------------------------------

/// The pieces of `s` between `/` separators (empty pieces included).
pub open spec fn split_slash(s: Seq<char>) -> Seq<Seq<char>>
    decreases s.len(),
{
    if s.len() == 0 {
        seq![Seq::<char>::empty()]
    } else {
        let init = split_slash(s.drop_last());
        if s.last() == '/' {
            init.push(Seq::<char>::empty())
        } else {
            init.update(init.len() - 1, init.last().push(s.last()))
        }
    }
}

pub proof fn lemma_split_slash_nonempty(s: Seq<char>)
    ensures
        split_slash(s).len() >= 1,
    decreases s.len(),
{
    if s.len() > 0 {
        lemma_split_slash_nonempty(s.drop_last());
    }
}

/// A path starting with `/` is absolute.
pub open spec fn has_root(s: Seq<char>) -> bool {
    s.len() > 0 && s[0] == '/'
}

/// One step of lexical normalisation: empty and `.` pieces vanish, `..`
/// removes the previous name (or stays at the front of a relative path,
/// or vanishes at the root), a name is appended.
pub open spec fn norm_step(acc: Seq<Seq<char>>, root: bool, seg: Seq<char>) -> Seq<Seq<char>> {
    if seg.len() == 0 || seg == "."@ {
        acc
    } else if seg == ".."@ {
        if acc.len() > 0 && acc.last() != ".."@ {
            acc.drop_last()
        } else if !root {
            acc.push(".."@)
        } else {
            acc
        }
    } else {
        acc.push(seg)
    }
}

pub open spec fn norm_parts(segs: Seq<Seq<char>>, root: bool) -> Seq<Seq<char>>
    decreases segs.len(),
{
    if segs.len() == 0 {
        Seq::empty()
    } else {
        norm_step(norm_parts(segs.drop_last(), root), root, segs.last())
    }
}

/// The names of a path once normalised.
pub open spec fn path_parts(s: Seq<char>) -> Seq<Seq<char>> {
    norm_parts(split_slash(s), has_root(s))
}

/// The pieces joined with `/`.
pub open spec fn join_parts(parts: Seq<Seq<char>>) -> Seq<char>
    decreases parts.len(),
{
    if parts.len() == 0 {
        Seq::empty()
    } else if parts.len() == 1 {
        parts[0]
    } else {
        join_parts(parts.drop_last()) + "/"@ + parts.last()
    }
}

/// A path written from its root flag and names; the empty path is `.`.
pub open spec fn render(root: bool, parts: Seq<Seq<char>>) -> Seq<char> {
    let text = if root {
        "/"@ + join_parts(parts)
    } else {
        join_parts(parts)
    };
    if text.len() == 0 {
        "."@
    } else {
        text
    }
}

/// `s` normalised without looking at the file system.
pub open spec fn spec_normalize(s: Seq<char>) -> Seq<char> {
    render(has_root(s), path_parts(s))
}

/// `rel` appended to `base` as `Path::join` does.
pub open spec fn spec_join(base: Seq<char>, rel: Seq<char>) -> Seq<char> {
    if has_root(rel) || base.len() == 0 {
        rel
    } else if base.last() == '/' {
        base + rel
    } else {
        base + "/"@ + rel
    }
}

/// A path made absolute against the working directory (when known), then
/// normalised.
pub open spec fn spec_absolutize(s: Seq<char>, cwd: Option<Seq<char>>) -> Seq<char> {
    if has_root(s) {
        spec_normalize(s)
    } else {
        match cwd {
            Some(c) => spec_normalize(spec_join(c, s)),
            None => spec_normalize(s),
        }
    }
}

/// The names of a path that are not `..`.
pub open spec fn drop_parent_refs(parts: Seq<Seq<char>>) -> Seq<Seq<char>>
    decreases parts.len(),
{
    if parts.len() == 0 {
        Seq::empty()
    } else if parts.last() == ".."@ {
        drop_parent_refs(parts.drop_last())
    } else {
        drop_parent_refs(parts.drop_last()).push(parts.last())
    }
}

/// How many leading names two paths share, counting from `k`.
pub open spec fn common_from(a: Seq<Seq<char>>, b: Seq<Seq<char>>, k: int) -> int
    decreases a.len() - k,
{
    if 0 <= k && k < a.len() && k < b.len() && a[k] == b[k] {
        common_from(a, b, k + 1)
    } else {
        k
    }
}

/// `n` copies of `..`.
pub open spec fn parent_refs(n: nat) -> Seq<Seq<char>> {
    Seq::new(n, |i: int| ".."@)
}

/// `path` relative to `base`, both compared by their normalised names; no
/// answer when one is absolute and the other is not.
pub open spec fn spec_diff_paths(path: Seq<char>, base: Seq<char>) -> Option<Seq<char>> {
    let p = drop_parent_refs(path_parts(path));
    let b = drop_parent_refs(path_parts(base));
    if has_root(path) != has_root(base) {
        None
    } else {
        let common = common_from(p, b, 0);
        let rel = parent_refs((b.len() - common) as nat) + p.subrange(common, p.len() as int);
        Some(render(false, rel))
    }
}

/// What a stored path becomes when its document is saved under `base`.
pub open spec fn spec_make_relative(path: Seq<char>, base: Seq<char>) -> Seq<char> {
    if path.len() == 0 || !has_root(path) {
        path
    } else {
        let absolute = spec_normalize(path);
        match spec_diff_paths(absolute, base) {
            Some(rel) => rel,
            None => absolute,
        }
    }
}

/// What a stored path becomes when its document is loaded from `base`.
pub open spec fn spec_resolve(path: Seq<char>, base: Seq<char>) -> Seq<char> {
    if path.len() == 0 || has_root(path) {
        path
    } else {
        spec_normalize(spec_join(base, path))
    }
}

/// The pieces of a path that `Path::components` reports as names or `..`.
pub open spec fn named_components(segs: Seq<Seq<char>>) -> Seq<Seq<char>>
    decreases segs.len(),
{
    if segs.len() == 0 {
        Seq::empty()
    } else if segs.last().len() == 0 || segs.last() == "."@ {
        named_components(segs.drop_last())
    } else {
        named_components(segs.drop_last()).push(segs.last())
    }
}

/// The directory that holds a document, absolute and normalised.
pub open spec fn spec_document_base_dir(path: Seq<char>, cwd: Option<Seq<char>>) -> Seq<char> {
    let comps = named_components(split_slash(path));
    let parent = if comps.len() == 0 {
        "."@
    } else if has_root(path) {
        "/"@ + join_parts(comps.drop_last())
    } else {
        join_parts(comps.drop_last())
    };
    spec_absolutize(parent, cwd)
}

pub open spec fn cviews(v: Seq<Vec<char>>) -> Seq<Seq<char>> {
    v.map_values(|x: Vec<char>| x@)
}

// ---------------------------------------------------------------------------
// Splitting, normalising, joining
// ---------------------------------------------------------------------------

/// The pieces of `s` between `/` separators.
pub fn split_on_slash(s: &Vec<char>) -> (r: Vec<Vec<char>>)
    ensures
        cviews(r@) == split_slash(s@),
{
    let mut done: Vec<Vec<char>> = Vec::new();
    let mut current: Vec<char> = Vec::new();
    let mut i: usize = 0;
    while i < s.len()
        invariant
            i <= s@.len(),
            cviews(done@).push(current@) == split_slash(s@.take(i as int)),
        decreases s.len() - i,
    {
        let c = s[i];
        let ghost before = cviews(done@).push(current@);
        assert(s@.take(i + 1).drop_last() =~= s@.take(i as int));
        if c == '/' {
            let finished = current;
            done.push(finished);
            current = Vec::new();
            assert(cviews(done@).push(current@) =~= before.push(Seq::<char>::empty()));
        } else {
            current.push(c);
            assert(cviews(done@).push(current@) =~= before.update(
                before.len() - 1,
                before.last().push(c),
            ));
        }
        i = i + 1;
    }
    assert(s@.take(s@.len() as int) =~= s@);
    done.push(current);
    done
}

fn is_dot(seg: &Vec<char>) -> (r: bool)
    ensures
        r == (seg@ == "."@),
{
    proof {
        reveal_strlit(".");
    }
    seg.len() == 1 && seg[0] == '.' && {
        assert(seg@ =~= "."@);
        true
    }
}

pub fn is_dot_dot(seg: &Vec<char>) -> (r: bool)
    ensures
        r == (seg@ == ".."@),
{
    proof {
        reveal_strlit("..");
    }
    if seg.len() == 2 && seg[0] == '.' && seg[1] == '.' {
        assert(seg@ =~= ".."@);
        true
    } else {
        false
    }
}

fn dot_dot() -> (r: Vec<char>)
    ensures
        r@ == ".."@,
{
    proof {
        reveal_strlit("..");
    }
    let mut r: Vec<char> = Vec::new();
    r.push('.');
    r.push('.');
    assert(r@ =~= ".."@);
    r
}

/// The names of the path whose pieces are `segs`, once normalised.
pub fn normalize_parts(segs: &Vec<Vec<char>>, root: bool) -> (r: Vec<Vec<char>>)
    ensures
        cviews(r@) == norm_parts(cviews(segs@), root),
{
    let mut acc: Vec<Vec<char>> = Vec::new();
    let mut i: usize = 0;
    while i < segs.len()
        invariant
            i <= segs@.len(),
            cviews(acc@) == norm_parts(cviews(segs@.take(i as int)), root),
        decreases segs.len() - i,
    {
        let seg = &segs[i];
        let ghost prev = cviews(acc@);
        assert(cviews(segs@.take(i + 1)).drop_last() =~= cviews(segs@.take(i as int)));
        assert(cviews(segs@.take(i + 1)).last() == seg@);
        if seg.len() == 0 || is_dot(seg) {
        } else if is_dot_dot(seg) {
            let pop = acc.len() > 0 && !is_dot_dot(&acc[acc.len() - 1]);
            if pop {
                acc.pop();
                assert(cviews(acc@) =~= prev.drop_last());
            } else if !root {
                acc.push(dot_dot());
                assert(cviews(acc@) =~= prev.push(".."@));
            }
        } else {
            acc.push(seg.clone());
            assert(cviews(acc@) =~= prev.push(seg@));
        }
        i = i + 1;
    }
    assert(segs@.take(segs@.len() as int) =~= segs@);
    acc
}

/// The pieces joined with `/`.
pub fn join_with_slash(parts: &Vec<Vec<char>>) -> (r: Vec<char>)
    ensures
        r@ == join_parts(cviews(parts@)),
{
    let mut out: Vec<char> = Vec::new();
    let mut i: usize = 0;
    while i < parts.len()
        invariant
            i <= parts@.len(),
            out@ == join_parts(cviews(parts@.take(i as int))),
        decreases parts.len() - i,
    {
        let ghost prev = out@;
        assert(cviews(parts@.take(i + 1)).drop_last() =~= cviews(parts@.take(i as int)));
        if i > 0 {
            out.push('/');
        }
        push_all(&mut out, &parts[i]);
        proof {
            reveal_strlit("/");
            if i == 0 {
                assert(cviews(parts@.take(1)) =~= seq![parts@[0]@]);
                assert(out@ =~= parts@[0]@);
            } else {
                assert(out@ =~= prev + "/"@ + parts@[i as int]@);
            }
        }
        i = i + 1;
    }
    assert(parts@.take(parts@.len() as int) =~= parts@);
    out
}

fn starts_at_root(s: &Vec<char>) -> (r: bool)
    ensures
        r == has_root(s@),
{
    s.len() > 0 && s[0] == '/'
}

/// A path written from its root flag and names; `.` when empty.
pub fn render_path(root: bool, parts: &Vec<Vec<char>>) -> (r: Vec<char>)
    ensures
        r@ == render(root, cviews(parts@)),
{
    proof {
        reveal_strlit("/");
        reveal_strlit(".");
    }
    let body = join_with_slash(parts);
    let mut text: Vec<char> = Vec::new();
    if root {
        text.push('/');
    }
    push_all(&mut text, &body);
    if root {
        assert(text@ =~= "/"@ + body@);
    } else {
        assert(text@ =~= body@);
    }
    if text.len() == 0 {
        let mut dot: Vec<char> = Vec::new();
        dot.push('.');
        assert(dot@ =~= "."@);
        return dot;
    }
    text
}

/// The normalised names of a path.
pub fn parts_of(s: &Vec<char>) -> (r: Vec<Vec<char>>)
    ensures
        cviews(r@) == path_parts(s@),
{
    let segs = split_on_slash(s);
    normalize_parts(&segs, starts_at_root(s))
}

/// A path normalised lexically: `.` and empty pieces removed, `..`
/// applied where it can be.
pub fn normalize_lexical(path: &str) -> (r: String)
    ensures
        r@ == spec_normalize(path@),
{
    let s = chars_of(path);
    let parts = parts_of(&s);
    let out = render_path(starts_at_root(&s), &parts);
    string_of(&out)
}

/// `rel` appended to `base`.
pub fn join_path(base: &str, rel: &str) -> (r: String)
    ensures
        r@ == spec_join(base@, rel@),
{
    proof {
        reveal_strlit("/");
    }
    let b = chars_of(base);
    let p = chars_of(rel);
    if starts_at_root(&p) || b.len() == 0 {
        return string_of(&p);
    }
    let mut out = b.clone();
    let ends_with_slash = b[b.len() - 1] == '/';
    if !ends_with_slash {
        out.push('/');
    }
    push_all(&mut out, &p);
    if ends_with_slash {
        assert(out@ =~= b@ + p@);
    } else {
        assert(out@ =~= b@ + "/"@ + p@);
    }
    string_of(&out)
}

/// A path made absolute against `current_dir` (when known), then normalised.
pub fn absolutize_lexically(path: &str, current_dir: Option<&str>) -> (r: String)
    ensures
        r@ == spec_absolutize(path@, match current_dir {
            Some(c) => Some(c@),
            None => None,
        }),
{
    let s = chars_of(path);
    if starts_at_root(&s) {
        return normalize_lexical(path);
    }
    match current_dir {
        Some(cwd) => {
            let joined = join_path(cwd, path);
            normalize_lexical(joined.as_str())
        },
        None => normalize_lexical(path),
    }
}

fn drop_dot_dots(parts: &Vec<Vec<char>>) -> (r: Vec<Vec<char>>)
    ensures
        cviews(r@) == drop_parent_refs(cviews(parts@)),
{
    let mut out: Vec<Vec<char>> = Vec::new();
    let mut i: usize = 0;
    while i < parts.len()
        invariant
            i <= parts@.len(),
            cviews(out@) == drop_parent_refs(cviews(parts@.take(i as int))),
        decreases parts.len() - i,
    {
        let ghost prev = cviews(out@);
        assert(cviews(parts@.take(i + 1)).drop_last() =~= cviews(parts@.take(i as int)));
        assert(cviews(parts@.take(i + 1)).last() == parts@[i as int]@);
        if !is_dot_dot(&parts[i]) {
            out.push(parts[i].clone());
            assert(cviews(out@) =~= prev.push(parts@[i as int]@));
        }
        i = i + 1;
    }
    assert(parts@.take(parts@.len() as int) =~= parts@);
    out
}

/// `path` relative to `base_dir`; `None` when one is absolute and the
/// other is not.
pub fn diff_paths(path: &str, base_dir: &str) -> (r: Option<String>)
    ensures
        match r {
            Some(s) => spec_diff_paths(path@, base_dir@) == Some(s@),
            None => spec_diff_paths(path@, base_dir@) is None,
        },
{
    let ps = chars_of(path);
    let bs = chars_of(base_dir);
    if starts_at_root(&ps) != starts_at_root(&bs) {
        return None;
    }
    let p = drop_dot_dots(&parts_of(&ps));
    let b = drop_dot_dots(&parts_of(&bs));
    let ghost pv = cviews(p@);
    let ghost bv = cviews(b@);
    let mut common: usize = 0;
    while common < p.len() && common < b.len() && chars_eq(&p[common], &b[common])
        invariant
            pv == cviews(p@),
            bv == cviews(b@),
            common <= p@.len(),
            common <= b@.len(),
            common_from(pv, bv, 0) == common_from(pv, bv, common as int),
        decreases p.len() - common,
    {
        assert(pv[common as int] == bv[common as int]);
        common = common + 1;
    }
    assert(common_from(pv, bv, common as int) == common as int);
    let mut rel: Vec<Vec<char>> = Vec::new();
    let mut k: usize = common;
    while k < b.len()
        invariant
            common <= k <= b@.len(),
            cviews(rel@) == parent_refs((k - common) as nat),
        decreases b.len() - k,
    {
        let ghost prev = cviews(rel@);
        rel.push(dot_dot());
        assert(cviews(rel@) =~= prev.push(".."@));
        assert(cviews(rel@) =~= parent_refs((k + 1 - common) as nat));
        k = k + 1;
    }
    let mut j: usize = common;
    while j < p.len()
        invariant
            pv == cviews(p@),
            common <= j <= p@.len(),
            common <= b@.len(),
            cviews(rel@) == parent_refs((b@.len() - common) as nat) + pv.subrange(
                common as int,
                j as int,
            ),
        decreases p.len() - j,
    {
        let ghost prev = cviews(rel@);
        rel.push(p[j].clone());
        assert(cviews(rel@) =~= prev.push(pv[j as int]));
        assert(cviews(rel@) =~= parent_refs((b@.len() - common) as nat) + pv.subrange(
            common as int,
            j + 1,
        ));
        j = j + 1;
    }
    let out = render_path(false, &rel);
    Some(string_of(&out))
}

/// Rewrites an absolute path relative to `base_dir`, the directory of the
/// document being saved; relative and empty paths stay as they are.
pub fn make_path_relative(path: &mut String, base_dir: &str)
    ensures
        final(path)@ == spec_make_relative(old(path)@, base_dir@),
{
    let s = chars_of(path.as_str());
    if s.len() == 0 || !starts_at_root(&s) {
        return ;
    }
    let absolute = normalize_lexical(path.as_str());
    match diff_paths(absolute.as_str(), base_dir) {
        Some(relative) => {
            *path = relative;
        },
        None => {
            *path = absolute;
        },
    }
}

/// Resolves a relative path against `base_dir`, the directory of the
/// document being loaded; absolute and empty paths stay as they are.
pub fn resolve_relative_path(path: &mut String, base_dir: &str)
    ensures
        final(path)@ == spec_resolve(old(path)@, base_dir@),
{
    let s = chars_of(path.as_str());
    if s.len() == 0 || starts_at_root(&s) {
        return ;
    }
    let joined = join_path(base_dir, path.as_str());
    *path = normalize_lexical(joined.as_str());
}

pub fn named_components_of(segs: &Vec<Vec<char>>) -> (r: Vec<Vec<char>>)
    ensures
        cviews(r@) == named_components(cviews(segs@)),
{
    let mut out: Vec<Vec<char>> = Vec::new();
    let mut i: usize = 0;
    while i < segs.len()
        invariant
            i <= segs@.len(),
            cviews(out@) == named_components(cviews(segs@.take(i as int))),
        decreases segs.len() - i,
    {
        let ghost prev = cviews(out@);
        assert(cviews(segs@.take(i + 1)).drop_last() =~= cviews(segs@.take(i as int)));
        assert(cviews(segs@.take(i + 1)).last() == segs@[i as int]@);
        if segs[i].len() != 0 && !is_dot(&segs[i]) {
            out.push(segs[i].clone());
            assert(cviews(out@) =~= prev.push(segs@[i as int]@));
        }
        i = i + 1;
    }
    assert(segs@.take(segs@.len() as int) =~= segs@);
    out
}

/// The directory of the document at `document_path`, made absolute against
/// `current_dir` (when known) and normalised.
pub fn document_base_dir(document_path: &str, current_dir: Option<&str>) -> (r: String)
    ensures
        r@ == spec_document_base_dir(document_path@, match current_dir {
            Some(c) => Some(c@),
            None => None,
        }),
{
    proof {
        reveal_strlit(".");
        reveal_strlit("/");
    }
    let s = chars_of(document_path);
    let segs = split_on_slash(&s);
    let mut comps = named_components_of(&segs);
    let parent: Vec<char> = if comps.len() == 0 {
        let mut dot: Vec<char> = Vec::new();
        dot.push('.');
        assert(dot@ =~= "."@);
        dot
    } else {
        let ghost all = cviews(comps@);
        comps.pop();
        assert(cviews(comps@) =~= all.drop_last());
        let body = join_with_slash(&comps);
        if starts_at_root(&s) {
            let mut text: Vec<char> = Vec::new();
            text.push('/');
            push_all(&mut text, &body);
            assert(text@ =~= "/"@ + body@);
            text
        } else {
            body
        }
    };
    let parent_text = string_of(&parent);
    absolutize_lexically(parent_text.as_str(), current_dir)
}

// ---------------------------------------------------------------------------
// File names, stems and extensions
// ---------------------------------------------------------------------------

/// The last name of a path, unless the path ends in `..` or has none.
pub open spec fn spec_file_name(path: Seq<char>) -> Option<Seq<char>> {
    let comps = named_components(split_slash(path));
    if comps.len() == 0 || comps.last() == ".."@ {
        None
    } else {
        Some(comps.last())
    }
}

/// Index of the last `c` in `s`, or -1.
pub open spec fn last_index_of(s: Seq<char>, c: char) -> int
    decreases s.len(),
{
    if s.len() == 0 {
        -1
    } else if s.last() == c {
        s.len() - 1
    } else {
        last_index_of(s.drop_last(), c)
    }
}

/// A file name without its extension; names with no dot but a leading one
/// are kept whole.
pub open spec fn spec_stem_of(name: Seq<char>) -> Seq<char> {
    let k = last_index_of(name, '.');
    if name == ".."@ || k <= 0 {
        name
    } else {
        name.take(k)
    }
}

/// The text after the last dot of a file name, unless that dot leads it.
pub open spec fn spec_extension_of(name: Seq<char>) -> Option<Seq<char>> {
    let k = last_index_of(name, '.');
    if name == ".."@ || k <= 0 {
        None
    } else {
        Some(name.skip(k + 1))
    }
}

pub open spec fn spec_file_stem(path: Seq<char>) -> Option<Seq<char>> {
    match spec_file_name(path) {
        Some(n) => Some(spec_stem_of(n)),
        None => None,
    }
}

pub open spec fn spec_extension(path: Seq<char>) -> Option<Seq<char>> {
    match spec_file_name(path) {
        Some(n) => spec_extension_of(n),
        None => None,
    }
}

/// The last name of a path (see `spec_file_name`).
pub fn file_name(path: &str) -> (r: Option<Vec<char>>)
    ensures
        match r {
            Some(v) => spec_file_name(path@) == Some(v@),
            None => spec_file_name(path@) is None,
        },
{
    let s = chars_of(path);
    let segs = split_on_slash(&s);
    let comps = named_components_of(&segs);
    if comps.len() == 0 {
        return None;
    }
    let last = &comps[comps.len() - 1];
    assert(cviews(comps@).last() == last@);
    if is_dot_dot(last) {
        return None;
    }
    Some(last.clone())
}

fn last_dot(name: &Vec<char>) -> (r: Option<usize>)
    ensures
        match r {
            Some(k) => k == last_index_of(name@, '.') && k < name@.len(),
            None => last_index_of(name@, '.') == -1,
        },
{
    let mut i: usize = name.len();
    assert(name@.take(i as int) =~= name@);
    while i > 0
        invariant
            i <= name@.len(),
            last_index_of(name@, '.') == last_index_of(name@.take(i as int), '.'),
        decreases i,
    {
        assert(name@.take(i as int).drop_last() =~= name@.take(i - 1));
        if name[i - 1] == '.' {
            return Some(i - 1);
        }
        i = i - 1;
    }
    None
}

/// A file name without its extension (see `spec_stem_of`).
pub fn stem_of(name: &Vec<char>) -> (r: Vec<char>)
    ensures
        r@ == spec_stem_of(name@),
{
    let k = match last_dot(name) {
        Some(k) => k,
        None => {
            return name.clone();
        },
    };
    if is_dot_dot(name) || k == 0 {
        return name.clone();
    }
    let mut r: Vec<char> = Vec::new();
    let mut i: usize = 0;
    while i < k
        invariant
            0 < k < name@.len(),
            i <= k,
            r@ == name@.take(i as int),
        decreases k - i,
    {
        r.push(name[i]);
        i = i + 1;
        assert(r@ =~= name@.take(i as int));
    }
    r
}

/// The extension of a file name (see `spec_extension_of`).
pub fn extension_of(name: &Vec<char>) -> (r: Option<Vec<char>>)
    ensures
        match r {
            Some(v) => spec_extension_of(name@) == Some(v@),
            None => spec_extension_of(name@) is None,
        },
{
    let k = match last_dot(name) {
        Some(k) => k,
        None => {
            return None;
        },
    };
    if is_dot_dot(name) || k == 0 {
        return None;
    }
    let n = name.len();
    assert(k < n);
    let mut r: Vec<char> = Vec::new();
    let mut i: usize = k + 1;
    while i < name.len()
        invariant
            0 < k < name@.len(),
            k + 1 <= i <= name@.len(),
            r@ == name@.subrange(k + 1, i as int),
        decreases name.len() - i,
    {
        r.push(name[i]);
        i = i + 1;
        assert(r@ =~= name@.subrange(k + 1, i as int));
    }
    assert(name@.skip(k + 1) =~= name@.subrange(k + 1, name@.len() as int));
    Some(r)
}

/// The directory part of a path: its named components but the last, with
/// its root (empty and `.` pieces dropped).
pub open spec fn spec_dir_part(path: Seq<char>) -> Seq<char> {
    let comps = named_components(split_slash(path));
    let body = join_parts(
        if comps.len() == 0 {
            comps
        } else {
            comps.drop_last()
        },
    );
    if has_root(path) {
        "/"@ + body
    } else {
        body
    }
}

pub fn dir_part(path: &str) -> (r: Vec<char>)
    ensures
        r@ == spec_dir_part(path@),
{
    proof {
        reveal_strlit("/");
    }
    let s = chars_of(path);
    let segs = split_on_slash(&s);
    let mut comps = named_components_of(&segs);
    let ghost all = cviews(comps@);
    if comps.len() > 0 {
        comps.pop();
        assert(cviews(comps@) =~= all.drop_last());
    }
    let body = join_with_slash(&comps);
    if s.len() > 0 && s[0] == '/' {
        let mut d: Vec<char> = Vec::new();
        d.push('/');
        push_all(&mut d, &body);
        assert(d@ =~= "/"@ + body@);
        d
    } else {
        body
    }
}

/// `name` appended to `base` with one `/` between them.
pub open spec fn spec_push_name(base: Seq<char>, name: Seq<char>) -> Seq<char> {
    if base.len() == 0 {
        name
    } else if base.last() == '/' {
        base + name
    } else {
        base + "/"@ + name
    }
}

/// `path` with its file name replaced by `name` (or `name` appended when it
/// has none), as `PathBuf::set_file_name` does; the directory part is
/// written from the path's named components.
pub open spec fn spec_with_file_name(path: Seq<char>, name: Seq<char>) -> Seq<char> {
    match spec_file_name(path) {
        Some(_) => spec_push_name(spec_dir_part(path), name),
        None => spec_push_name(path, name),
    }
}

fn push_name(base: &Vec<char>, name: &Vec<char>) -> (r: Vec<char>)
    ensures
        r@ == spec_push_name(base@, name@),
{
    proof {
        reveal_strlit("/");
    }
    if base.len() == 0 {
        return name.clone();
    }
    let mut out = base.clone();
    let ends_with_slash = base[base.len() - 1] == '/';
    if !ends_with_slash {
        out.push('/');
    }
    push_all(&mut out, name);
    if ends_with_slash {
        assert(out@ =~= base@ + name@);
    } else {
        assert(out@ =~= base@ + "/"@ + name@);
    }
    out
}

pub fn with_file_name(path: &str, name: &str) -> (r: String)
    ensures
        r@ == spec_with_file_name(path@, name@),
{
    let n = chars_of(name);
    let out = match file_name(path) {
        Some(_) => push_name(&dir_part(path), &n),
        None => push_name(&chars_of(path), &n),
    };
    string_of(&out)
}

// ---------------------------------------------------------------------------
// Relocating the paths of whole documents
// ---------------------------------------------------------------------------

/// What a stored path becomes: relative to `base` when saving, resolved
/// against it when loading.
pub open spec fn relocated(path: Seq<char>, base: Seq<char>, saving: bool) -> Seq<char> {
    if saving {
        spec_make_relative(path, base)
    } else {
        spec_resolve(path, base)
    }
}

/// The path map of a save (`saving`) or load relative to `base`.
pub open spec fn relocation(base: Seq<char>, saving: bool) -> spec_fn(Seq<char>) -> Seq<char> {
    |p: Seq<char>| relocated(p, base, saving)
}

pub open spec fn relocated_opt(
    before: Option<String>,
    after: Option<String>,
    f: spec_fn(Seq<char>) -> Seq<char>,
) -> bool {
    match before {
        None => after is None,
        Some(b) => after matches Some(a) && a@ == f(b@),
    }
}

pub open spec fn firmware_relocated(
    before: FirmwareSource,
    after: FirmwareSource,
    f: spec_fn(Seq<char>) -> Seq<char>,
) -> bool {
    &&& after.kind == before.kind
    &&& after.path@ == f(before.path@)
    &&& relocated_opt(before.compiled_hex_path, after.compiled_hex_path, f)
}

pub open spec fn firmware_opt_relocated(
    before: Option<FirmwareSource>,
    after: Option<FirmwareSource>,
    f: spec_fn(Seq<char>) -> Seq<char>,
) -> bool {
    match before {
        None => after is None,
        Some(b) => after matches Some(a) && firmware_relocated(b, a, f),
    }
}

pub open spec fn source_relocated(
    before: DefinitionSource,
    after: DefinitionSource,
    f: spec_fn(Seq<char>) -> Seq<char>,
) -> bool {
    &&& after.kind == before.kind
    &&& after.builtin_name == before.builtin_name
    &&& relocated_opt(before.path, after.path, f)
}

pub open spec fn reference_relocated(
    before: DefinitionReference,
    after: DefinitionReference,
    f: spec_fn(Seq<char>) -> Seq<char>,
) -> bool {
    &&& after.kind == before.kind
    &&& after.builtin_name == before.builtin_name
    &&& after.host_board == before.host_board
    &&& relocated_opt(before.path, after.path, f)
}

pub open spec fn reference_opt_relocated(
    before: Option<DefinitionReference>,
    after: Option<DefinitionReference>,
    f: spec_fn(Seq<char>) -> Seq<char>,
) -> bool {
    match before {
        None => after is None,
        Some(b) => after matches Some(a) && reference_relocated(b, a, f),
    }
}

pub open spec fn instance_relocated(
    before: AttachedInstance,
    after: AttachedInstance,
    f: spec_fn(Seq<char>) -> Seq<char>,
) -> bool {
    &&& after.id == before.id
    &&& after.label == before.label
    &&& after.ports == before.ports
    &&& after.note == before.note
    &&& reference_relocated(before.reference, after.reference, f)
    &&& firmware_opt_relocated(before.firmware_override, after.firmware_override, f)
}

pub open spec fn member_relocated(
    before: AssemblyMember,
    after: AssemblyMember,
    f: spec_fn(Seq<char>) -> Seq<char>,
) -> bool {
    &&& after.id == before.id
    &&& after.kind == before.kind
    &&& after.name == before.name
    &&& after.label == before.label
    &&& after.description == before.description
    &&& after.ports == before.ports
    &&& after.embedded_host_board == before.embedded_host_board
    &&& after.note == before.note
    &&& source_relocated(before.source, after.source, f)
    &&& firmware_opt_relocated(before.firmware, after.firmware, f)
    &&& reference_opt_relocated(before.behavior, after.behavior, f)
}

pub open spec fn project_relocated(
    before: SimulationProject,
    after: SimulationProject,
    f: spec_fn(Seq<char>) -> Seq<char>,
) -> bool {
    &&& after.format_version == before.format_version
    &&& after.name == before.name
    &&& after.description == before.description
    &&& after.host_board == before.host_board
    &&& after.module_overlays == before.module_overlays
    &&& after.bindings == before.bindings
    &&& after.probes == before.probes
    &&& after.stimuli == before.stimuli
    &&& firmware_relocated(before.firmware, after.firmware, f)
    &&& after.pcb.board_name_hint == before.pcb.board_name_hint
    &&& after.pcb.path@ == f(before.pcb.path@)
    &&& reference_opt_relocated(before.root_assembly, after.root_assembly, f)
}

pub open spec fn board_relocated(
    before: BoardDefinition,
    after: BoardDefinition,
    f: spec_fn(Seq<char>) -> Seq<char>,
) -> bool {
    &&& after.format_version == before.format_version
    &&& after.name == before.name
    &&& after.description == before.description
    &&& after.ports == before.ports
    &&& source_relocated(before.source, after.source, f)
    &&& firmware_opt_relocated(before.default_firmware, after.default_firmware, f)
}

pub open spec fn module_relocated(
    before: ModuleDefinition,
    after: ModuleDefinition,
    f: spec_fn(Seq<char>) -> Seq<char>,
) -> bool {
    &&& after.format_version == before.format_version
    &&& after.name == before.name
    &&& after.description == before.description
    &&& after.ports == before.ports
    &&& after.embedded_host_board == before.embedded_host_board
    &&& source_relocated(before.source, after.source, f)
    &&& firmware_opt_relocated(before.default_firmware, after.default_firmware, f)
}

pub open spec fn assembly_relocated(
    before: AssemblyDefinition,
    after: AssemblyDefinition,
    f: spec_fn(Seq<char>) -> Seq<char>,
) -> bool {
    &&& after.format_version == before.format_version
    &&& after.name == before.name
    &&& after.description == before.description
    &&& after.primary_ports == before.primary_ports
    &&& after.attachments == before.attachments
    &&& after.exports == before.exports
    &&& reference_relocated(before.primary, after.primary, f)
    &&& after.children@.len() == before.children@.len()
    &&& forall|i: int|
        0 <= i < before.children@.len() ==> instance_relocated(
            before.children@[i],
            #[trigger] after.children@[i],
            f,
        )
}

pub open spec fn bundle_relocated(
    before: AssemblyBundle,
    after: AssemblyBundle,
    f: spec_fn(Seq<char>) -> Seq<char>,
) -> bool {
    &&& after.format_version == before.format_version
    &&& after.name == before.name
    &&& after.description == before.description
    &&& after.attachments == before.attachments
    &&& after.exports == before.exports
    &&& member_relocated(before.primary, after.primary, f)
    &&& after.children@.len() == before.children@.len()
    &&& forall|i: int|
        0 <= i < before.children@.len() ==> member_relocated(
            before.children@[i],
            #[trigger] after.children@[i],
            f,
        )
}

/// Every stored path of the document relocated; everything else kept.
/// Behavior definitions hold no paths.
pub open spec fn document_relocated(
    before: AvrSimDocument,
    after: AvrSimDocument,
    f: spec_fn(Seq<char>) -> Seq<char>,
) -> bool {
    match before {
        AvrSimDocument::SimulationProject(b) => after matches AvrSimDocument::SimulationProject(a)
            && project_relocated(b, a, f),
        AvrSimDocument::BoardDefinition(b) => after matches AvrSimDocument::BoardDefinition(a)
            && board_relocated(b, a, f),
        AvrSimDocument::ModuleDefinition(b) => after matches AvrSimDocument::ModuleDefinition(a)
            && module_relocated(b, a, f),
        AvrSimDocument::AssemblyDefinition(b) => after matches AvrSimDocument::AssemblyDefinition(
            a,
        ) && assembly_relocated(b, a, f),
        AvrSimDocument::AssemblyBundle(b) => after matches AvrSimDocument::AssemblyBundle(a)
            && bundle_relocated(b, a, f),
        AvrSimDocument::BehaviorDefinition(b) => after == before,
    }
}

fn relocate_path(path: &mut String, base_dir: &str, saving: bool)
    ensures
        final(path)@ == relocated(old(path)@, base_dir@, saving),
{
    if saving {
        make_path_relative(path, base_dir);
    } else {
        resolve_relative_path(path, base_dir);
    }
}

fn relocate_optional_path(path: &mut Option<String>, base_dir: &str, saving: bool)
    ensures
        relocated_opt(*old(path), *final(path), relocation(base_dir@, saving)),
{
    match path {
        Some(p) => relocate_path(p, base_dir, saving),
        None => {},
    }
}

fn relocate_firmware(firmware: &mut FirmwareSource, base_dir: &str, saving: bool)
    ensures
        firmware_relocated(*old(firmware), *final(firmware), relocation(base_dir@, saving)),
{
    relocate_path(&mut firmware.path, base_dir, saving);
    relocate_optional_path(&mut firmware.compiled_hex_path, base_dir, saving);
}

fn relocate_optional_firmware(firmware: &mut Option<FirmwareSource>, base_dir: &str, saving: bool)
    ensures
        firmware_opt_relocated(*old(firmware), *final(firmware), relocation(base_dir@, saving)),
{
    match firmware {
        Some(f) => relocate_firmware(f, base_dir, saving),
        None => {},
    }
}

fn relocate_source(source: &mut DefinitionSource, base_dir: &str, saving: bool)
    ensures
        source_relocated(*old(source), *final(source), relocation(base_dir@, saving)),
{
    relocate_optional_path(&mut source.path, base_dir, saving);
}

fn relocate_reference(reference: &mut DefinitionReference, base_dir: &str, saving: bool)
    ensures
        reference_relocated(*old(reference), *final(reference), relocation(base_dir@, saving)),
{
    relocate_optional_path(&mut reference.path, base_dir, saving);
}

fn relocate_optional_reference(
    reference: &mut Option<DefinitionReference>,
    base_dir: &str,
    saving: bool,
)
    ensures
        reference_opt_relocated(*old(reference), *final(reference), relocation(base_dir@, saving)),
{
    match reference {
        Some(r) => relocate_reference(r, base_dir, saving),
        None => {},
    }
}

fn relocate_instance(instance: &mut AttachedInstance, base_dir: &str, saving: bool)
    ensures
        instance_relocated(*old(instance), *final(instance), relocation(base_dir@, saving)),
{
    relocate_reference(&mut instance.reference, base_dir, saving);
    relocate_optional_firmware(&mut instance.firmware_override, base_dir, saving);
}

fn relocate_member(member: &mut AssemblyMember, base_dir: &str, saving: bool)
    ensures
        member_relocated(*old(member), *final(member), relocation(base_dir@, saving)),
{
    relocate_source(&mut member.source, base_dir, saving);
    relocate_optional_firmware(&mut member.firmware, base_dir, saving);
    relocate_optional_reference(&mut member.behavior, base_dir, saving);
}

fn relocate_project(project: &mut SimulationProject, base_dir: &str, saving: bool)
    ensures
        project_relocated(*old(project), *final(project), relocation(base_dir@, saving)),
{
    relocate_firmware(&mut project.firmware, base_dir, saving);
    relocate_path(&mut project.pcb.path, base_dir, saving);
    relocate_optional_reference(&mut project.root_assembly, base_dir, saving);
}

fn relocate_board(definition: &mut BoardDefinition, base_dir: &str, saving: bool)
    ensures
        board_relocated(*old(definition), *final(definition), relocation(base_dir@, saving)),
{
    relocate_source(&mut definition.source, base_dir, saving);
    relocate_optional_firmware(&mut definition.default_firmware, base_dir, saving);
}

fn relocate_module(definition: &mut ModuleDefinition, base_dir: &str, saving: bool)
    ensures
        module_relocated(*old(definition), *final(definition), relocation(base_dir@, saving)),
{
    relocate_source(&mut definition.source, base_dir, saving);
    relocate_optional_firmware(&mut definition.default_firmware, base_dir, saving);
}

fn relocate_assembly(definition: &mut AssemblyDefinition, base_dir: &str, saving: bool)
    ensures
        assembly_relocated(*old(definition), *final(definition), relocation(base_dir@, saving)),
{
    relocate_reference(&mut definition.primary, base_dir, saving);
    let ghost start = definition.children@;
    let mut i: usize = 0;
    while i < definition.children.len()
        invariant
            definition.format_version == old(definition).format_version,
            definition.name == old(definition).name,
            definition.description == old(definition).description,
            definition.primary_ports == old(definition).primary_ports,
            definition.attachments == old(definition).attachments,
            definition.exports == old(definition).exports,
            reference_relocated(old(definition).primary, definition.primary, relocation(base_dir@, saving)),
            start == old(definition).children@,
            definition.children@.len() == start.len(),
            i <= start.len(),
            forall|j: int|
                0 <= j < i ==> instance_relocated(
                    start[j],
                    #[trigger] definition.children@[j],
                    relocation(base_dir@, saving),
                ),
            forall|j: int| i <= j < start.len() ==> definition.children@[j] == start[j],
        decreases start.len() - i,
    {
        relocate_instance(&mut definition.children[i], base_dir, saving);
        i = i + 1;
    }
}

fn relocate_bundle(bundle: &mut AssemblyBundle, base_dir: &str, saving: bool)
    ensures
        bundle_relocated(*old(bundle), *final(bundle), relocation(base_dir@, saving)),
{
    relocate_member(&mut bundle.primary, base_dir, saving);
    let ghost start = bundle.children@;
    let mut i: usize = 0;
    while i < bundle.children.len()
        invariant
            bundle.format_version == old(bundle).format_version,
            bundle.name == old(bundle).name,
            bundle.description == old(bundle).description,
            bundle.attachments == old(bundle).attachments,
            bundle.exports == old(bundle).exports,
            member_relocated(old(bundle).primary, bundle.primary, relocation(base_dir@, saving)),
            start == old(bundle).children@,
            bundle.children@.len() == start.len(),
            i <= start.len(),
            forall|j: int|
                0 <= j < i ==> member_relocated(
                    start[j],
                    #[trigger] bundle.children@[j],
                    relocation(base_dir@, saving),
                ),
            forall|j: int| i <= j < start.len() ==> bundle.children@[j] == start[j],
        decreases start.len() - i,
    {
        relocate_member(&mut bundle.children[i], base_dir, saving);
        i = i + 1;
    }
}

fn relocate_document(document: &mut AvrSimDocument, base_dir: &str, saving: bool)
    ensures
        document_relocated(*old(document), *final(document), relocation(base_dir@, saving)),
{
    match document {
        AvrSimDocument::SimulationProject(project) => relocate_project(project, base_dir, saving),
        AvrSimDocument::BoardDefinition(definition) => relocate_board(definition, base_dir, saving),
        AvrSimDocument::ModuleDefinition(definition) => relocate_module(definition, base_dir, saving),
        AvrSimDocument::AssemblyDefinition(definition) => relocate_assembly(
            definition,
            base_dir,
            saving,
        ),
        AvrSimDocument::AssemblyBundle(bundle) => relocate_bundle(bundle, base_dir, saving),
        AvrSimDocument::BehaviorDefinition(_) => {},
    }
}

pub open spec fn cwd_view(current_dir: Option<&str>) -> Option<Seq<char>> {
    match current_dir {
        Some(c) => Some(c@),
        None => None,
    }
}

/// Rewrites the document's absolute paths relative to the directory of
/// `document_path`, where it is about to be saved.
pub fn prepare_document_for_save(
    document: &mut AvrSimDocument,
    document_path: &str,
    current_dir: Option<&str>,
)
    ensures
        document_relocated(
            *old(document),
            *final(document),
            relocation(spec_document_base_dir(document_path@, cwd_view(current_dir)), true),
        ),
{
    let base_dir = document_base_dir(document_path, current_dir);
    relocate_document(document, base_dir.as_str(), true);
}

/// Resolves the document's relative paths against the directory of
/// `document_path`, where it was loaded from.
pub fn resolve_document_after_load(
    document: &mut AvrSimDocument,
    document_path: &str,
    current_dir: Option<&str>,
)
    ensures
        document_relocated(
            *old(document),
            *final(document),
            relocation(spec_document_base_dir(document_path@, cwd_view(current_dir)), false),
        ),
{
    let base_dir = document_base_dir(document_path, current_dir);
    relocate_document(document, base_dir.as_str(), false);
}

/// Resolves a bare simulation project's relative paths against the
/// directory of `document_path`.
pub fn resolve_simulation_project_after_load(
    project: &mut SimulationProject,
    document_path: &str,
    current_dir: Option<&str>,
)
    ensures
        project_relocated(
            *old(project),
            *final(project),
            relocation(spec_document_base_dir(document_path@, cwd_view(current_dir)), false),
        ),
{
    let base_dir = document_base_dir(document_path, current_dir);
    relocate_project(project, base_dir.as_str(), false);
}

// ---------------------------------------------------------------------------
// Saving then loading gives each stored path back
// ---------------------------------------------------------------------------

/// A piece of text without `/`.
pub open spec fn no_slash(x: Seq<char>) -> bool {
    forall|i: int| 0 <= i < x.len() ==> x[i] != '/'
}

/// A name that normalisation keeps as it is: not empty, not `.` or `..`,
/// without `/`.
pub open spec fn clean_name(x: Seq<char>) -> bool {
    x.len() > 0 && x != "."@ && x != ".."@ && no_slash(x)
}

pub open spec fn all_clean(parts: Seq<Seq<char>>) -> bool {
    forall|k: int| 0 <= k < parts.len() ==> clean_name(#[trigger] parts[k])
}

/// Normalisation continued from the names `acc` over the pieces `segs`.
pub open spec fn norm_from(acc: Seq<Seq<char>>, segs: Seq<Seq<char>>, root: bool) -> Seq<Seq<char>>
    decreases segs.len(),
{
    if segs.len() == 0 {
        acc
    } else {
        norm_step(norm_from(acc, segs.drop_last(), root), root, segs.last())
    }
}

proof fn lemma_norm_parts_from(segs: Seq<Seq<char>>, root: bool)
    ensures
        norm_parts(segs, root) == norm_from(Seq::empty(), segs, root),
    decreases segs.len(),
{
    if segs.len() > 0 {
        lemma_norm_parts_from(segs.drop_last(), root);
    }
}

proof fn lemma_norm_from_concat(acc: Seq<Seq<char>>, a: Seq<Seq<char>>, b: Seq<Seq<char>>, root: bool)
    ensures
        norm_from(acc, a + b, root) == norm_from(norm_from(acc, a, root), b, root),
    decreases b.len(),
{
    if b.len() == 0 {
        assert(a + b =~= a);
    } else {
        lemma_norm_from_concat(acc, a, b.drop_last(), root);
        assert((a + b).drop_last() =~= a + b.drop_last());
        assert((a + b).last() == b.last());
    }
}

/// A single empty or `.` piece leaves normalisation where it was.
proof fn lemma_norm_from_skip(acc: Seq<Seq<char>>, seg: Seq<char>, root: bool)
    requires
        seg.len() == 0 || seg == "."@,
    ensures
        norm_from(acc, seq![seg], root) == acc,
{
    assert(seq![seg].drop_last() =~= Seq::<Seq<char>>::empty());
    assert(norm_from(acc, Seq::<Seq<char>>::empty(), root) == acc);
}

proof fn lemma_split_concat(a: Seq<char>, b: Seq<char>)
    ensures
        split_slash(a + "/"@ + b) == split_slash(a) + split_slash(b),
    decreases b.len(),
{
    reveal_strlit("/");
    if b.len() == 0 {
        assert(a + "/"@ + b =~= a.push('/'));
        assert((a + "/"@ + b).drop_last() =~= a);
        assert(split_slash(b) =~= seq![Seq::<char>::empty()]);
        assert(split_slash(a).push(Seq::<char>::empty()) =~= split_slash(a) + split_slash(b));
    } else {
        lemma_split_concat(a, b.drop_last());
        lemma_split_slash_nonempty(b.drop_last());
        let t = a + "/"@ + b;
        assert(t.drop_last() =~= a + "/"@ + b.drop_last());
        assert(t.last() == b.last());
        let sa = split_slash(a);
        let sb = split_slash(b.drop_last());
        if b.last() == '/' {
            assert((sa + sb).push(Seq::<char>::empty()) =~= sa + sb.push(Seq::<char>::empty()));
        } else {
            assert((sa + sb).update(
                (sa + sb).len() - 1,
                (sa + sb).last().push(b.last()),
            ) =~= sa + sb.update(sb.len() - 1, sb.last().push(b.last())));
        }
    }
}

proof fn lemma_split_single(x: Seq<char>)
    requires
        no_slash(x),
    ensures
        split_slash(x) == seq![x],
    decreases x.len(),
{
    if x.len() == 0 {
        assert(x =~= Seq::<char>::empty());
    } else {
        lemma_split_single(x.drop_last());
        assert(x.drop_last().push(x.last()) =~= x);
        assert(seq![x.drop_last()].update(0, x.drop_last().push(x.last())) =~= seq![x]);
    }
}

proof fn lemma_split_join(ps: Seq<Seq<char>>)
    requires
        ps.len() > 0,
        forall|k: int| 0 <= k < ps.len() ==> no_slash(#[trigger] ps[k]),
    ensures
        split_slash(join_parts(ps)) == ps,
    decreases ps.len(),
{
    if ps.len() == 1 {
        lemma_split_single(ps[0]);
        assert(seq![ps[0]] =~= ps);
    } else {
        lemma_split_join(ps.drop_last());
        lemma_split_single(ps.last());
        lemma_split_concat(join_parts(ps.drop_last()), ps.last());
        assert(ps.drop_last() + seq![ps.last()] =~= ps);
    }
}

proof fn lemma_split_pieces_no_slash(s: Seq<char>)
    ensures
        forall|k: int| 0 <= k < split_slash(s).len() ==> no_slash(#[trigger] split_slash(s)[k]),
    decreases s.len(),
{
    if s.len() > 0 {
        lemma_split_pieces_no_slash(s.drop_last());
        lemma_split_slash_nonempty(s.drop_last());
        let init = split_slash(s.drop_last());
        if s.last() != '/' {
            let last = init.last().push(s.last());
            assert(no_slash(last)) by {
                assert(no_slash(init[init.len() - 1]));
            }
            assert forall|k: int| 0 <= k < split_slash(s).len() implies no_slash(
                #[trigger] split_slash(s)[k],
            ) by {
                if k < init.len() - 1 {
                    assert(split_slash(s)[k] == init[k]);
                }
            }
        } else {
            assert forall|k: int| 0 <= k < split_slash(s).len() implies no_slash(
                #[trigger] split_slash(s)[k],
            ) by {
                if k < init.len() {
                    assert(split_slash(s)[k] == init[k]);
                }
            }
        }
    }
}

/// Normalising from the root keeps only clean names.
proof fn lemma_norm_root_clean(acc: Seq<Seq<char>>, segs: Seq<Seq<char>>)
    requires
        all_clean(acc),
        forall|k: int| 0 <= k < segs.len() ==> no_slash(#[trigger] segs[k]),
    ensures
        all_clean(norm_from(acc, segs, true)),
    decreases segs.len(),
{
    if segs.len() > 0 {
        lemma_norm_root_clean(acc, segs.drop_last());
        assert(no_slash(segs[segs.len() - 1]));
        let prev = norm_from(acc, segs.drop_last(), true);
        assert forall|k: int| 0 <= k < norm_from(acc, segs, true).len() implies clean_name(
            #[trigger] norm_from(acc, segs, true)[k],
        ) by {
            if k < prev.len() {
                assert(norm_from(acc, segs, true)[k] == prev[k]);
            }
        }
    }
}

proof fn lemma_path_parts_clean(s: Seq<char>)
    requires
        has_root(s),
    ensures
        all_clean(path_parts(s)),
{
    lemma_split_pieces_no_slash(s);
    lemma_norm_parts_from(split_slash(s), true);
    lemma_norm_root_clean(Seq::empty(), split_slash(s));
}

/// Climbing `n` levels from the clean names `b` drops its last `n` names.
proof fn lemma_norm_climb(b: Seq<Seq<char>>, n: nat)
    requires
        all_clean(b),
        n <= b.len(),
    ensures
        norm_from(b, parent_refs(n), true) == b.take(b.len() - n),
    decreases n,
{
    reveal_strlit("..");
    reveal_strlit(".");
    if n == 0 {
        assert(b.take(b.len() as int) =~= b);
        assert(parent_refs(0) =~= Seq::<Seq<char>>::empty());
    } else {
        lemma_norm_climb(b, (n - 1) as nat);
        assert(parent_refs(n).last() == ".."@);
        assert(parent_refs(n).drop_last() =~= parent_refs((n - 1) as nat));
        let acc = b.take(b.len() - (n - 1));
        assert(acc.last() == b[b.len() - n]);
        assert(clean_name(b[b.len() - n]));
        assert(acc.drop_last() =~= b.take(b.len() - n));
    }
}

/// Clean names are appended as they are.
proof fn lemma_norm_append_clean(acc: Seq<Seq<char>>, t: Seq<Seq<char>>)
    requires
        all_clean(t),
    ensures
        norm_from(acc, t, true) == acc + t,
    decreases t.len(),
{
    if t.len() == 0 {
        assert(acc + t =~= acc);
    } else {
        lemma_norm_append_clean(acc, t.drop_last());
        assert(clean_name(t[t.len() - 1]));
        assert((acc + t.drop_last()).push(t.last()) =~= acc + t);
    }
}

proof fn lemma_no_parent_refs(p: Seq<Seq<char>>)
    requires
        all_clean(p),
    ensures
        drop_parent_refs(p) == p,
    decreases p.len(),
{
    if p.len() > 0 {
        lemma_no_parent_refs(p.drop_last());
        assert(clean_name(p[p.len() - 1]));
        assert(p.drop_last().push(p.last()) =~= p);
    }
}

proof fn lemma_common_from(a: Seq<Seq<char>>, b: Seq<Seq<char>>, k: int)
    requires
        0 <= k <= a.len(),
        k <= b.len(),
    ensures
        k <= common_from(a, b, k) <= a.len(),
        common_from(a, b, k) <= b.len(),
        forall|i: int| k <= i < common_from(a, b, k) ==> a[i] == b[i],
    decreases a.len() - k,
{
    if k < a.len() && k < b.len() && a[k] == b[k] {
        lemma_common_from(a, b, k + 1);
    }
}

/// An absolute path written from clean names normalises back to them.
proof fn lemma_render_root_parts(p: Seq<Seq<char>>)
    requires
        all_clean(p),
    ensures
        has_root(render(true, p)),
        path_parts(render(true, p)) == p,
{
    reveal_strlit("/");
    let text = "/"@ + join_parts(p);
    assert(text.len() > 0);
    assert(render(true, p) == text);
    assert(has_root(text));
    assert(text =~= Seq::<char>::empty() + "/"@ + join_parts(p));
    let e = Seq::<char>::empty();
    let empty_parts = Seq::<Seq<char>>::empty();
    assert(split_slash(e) =~= seq![e]);
    if p.len() == 0 {
        lemma_split_concat(e, e);
        assert(split_slash(text) =~= seq![e] + seq![e]);
        lemma_norm_parts_from(split_slash(text), true);
        lemma_norm_from_concat(empty_parts, seq![e], seq![e], true);
        lemma_norm_from_skip(empty_parts, e, true);
        assert(join_parts(p) =~= e);
        assert(p =~= empty_parts);
    } else {
        assert forall|k: int| 0 <= k < p.len() implies no_slash(#[trigger] p[k]) by {
            assert(clean_name(p[k]));
        }
        lemma_split_join(p);
        lemma_split_concat(e, join_parts(p));
        let segs = seq![e] + p;
        assert(split_slash(text) == segs);
        lemma_norm_parts_from(segs, true);
        lemma_norm_from_concat(empty_parts, seq![e], p, true);
        lemma_norm_from_skip(empty_parts, e, true);
        lemma_norm_append_clean(empty_parts, p);
        assert(Seq::<Seq<char>>::empty() + p =~= p);
    }
}

/// Resolving a relative path written from the pieces `q` against `base`
/// continues normalisation from the base's names over `q`.
proof fn lemma_resolve_pieces(q: Seq<Seq<char>>, base: Seq<char>)
    requires
        has_root(base),
        forall|k: int| 0 <= k < q.len() ==> clean_name(#[trigger] q[k]) || q[k] == ".."@,
    ensures
        spec_resolve(render(false, q), base) == render(
            true,
            norm_from(path_parts(base), q, true),
        ),
{
    reveal_strlit("/");
    reveal_strlit(".");
    reveal_strlit("..");
    let rel = render(false, q);
    let pieces = if q.len() == 0 {
        seq!["."@]
    } else {
        q
    };
    assert(norm_from(path_parts(base), pieces, true) == norm_from(path_parts(base), q, true)) by {
        if q.len() == 0 {
            lemma_norm_from_skip(path_parts(base), "."@, true);
            assert(q =~= Seq::<Seq<char>>::empty());
        }
    }
    assert forall|k: int| 0 <= k < pieces.len() implies no_slash(#[trigger] pieces[k]) by {
        if q.len() > 0 {
            assert(clean_name(q[k]) || q[k] == ".."@);
        }
    }
    assert(split_slash(rel) == pieces && rel.len() > 0 && !has_root(rel)) by {
        if q.len() == 0 {
            assert(rel == "."@);
            lemma_split_single("."@);
        } else {
            lemma_split_join(q);
            assert(join_parts(q).len() > 0) by {
                lemma_join_parts_first(q);
            }
            assert(rel == join_parts(q));
            lemma_join_parts_first(q);
        }
    }
    let a = if base.last() == '/' {
        base.drop_last()
    } else {
        base
    };
    let joined = spec_join(base, rel);
    assert(joined =~= a + "/"@ + rel);
    lemma_split_concat(a, rel);
    assert(has_root(joined));
    lemma_norm_parts_from(split_slash(joined), true);
    lemma_norm_from_concat(Seq::empty(), split_slash(a), pieces, true);
    lemma_norm_parts_from(split_slash(base), true);
    assert(norm_from(Seq::empty(), split_slash(a), true) == path_parts(base)) by {
        if base.last() == '/' {
            assert(base =~= a + "/"@ + Seq::<char>::empty());
            lemma_split_concat(a, Seq::<char>::empty());
            assert(split_slash(Seq::<char>::empty()) =~= seq![Seq::<char>::empty()]);
            lemma_norm_from_concat(
                Seq::empty(),
                split_slash(a),
                seq![Seq::<char>::empty()],
                true,
            );
            lemma_norm_from_skip(
                norm_from(Seq::empty(), split_slash(a), true),
                Seq::<char>::empty(),
                true,
            );
        }
    }
}

/// The first character of names joined with `/` is that of the first name.
proof fn lemma_join_parts_first(q: Seq<Seq<char>>)
    requires
        q.len() > 0,
        q[0].len() > 0,
    ensures
        join_parts(q).len() > 0,
        join_parts(q)[0] == q[0][0],
    decreases q.len(),
{
    if q.len() > 1 {
        lemma_join_parts_first(q.drop_last());
    }
}

/// A document's stored path survives a save and a load from the same
/// directory: an absolute path made relative to the (absolute) directory
/// `base` resolves against it to the path itself, normalised; an empty path
/// stays empty.
pub proof fn law_saved_path_resolves_back(path: Seq<char>, base: Seq<char>)
    requires
        has_root(path) || path.len() == 0,
        has_root(base),
    ensures
        has_root(path) ==> spec_resolve(spec_make_relative(path, base), base) == spec_normalize(
            path,
        ),
        path.len() == 0 ==> spec_resolve(spec_make_relative(path, base), base) == path,
{
    if path.len() > 0 {
        reveal_strlit("..");
        let absolute = spec_normalize(path);
        let p0 = path_parts(path);
        lemma_path_parts_clean(path);
        lemma_render_root_parts(p0);
        assert(absolute == render(true, p0));
        let p = drop_parent_refs(path_parts(absolute));
        lemma_no_parent_refs(p0);
        assert(p == p0);
        let b0 = path_parts(base);
        lemma_path_parts_clean(base);
        lemma_no_parent_refs(b0);
        let b = drop_parent_refs(b0);
        assert(b == b0);
        let common = common_from(p, b, 0);
        lemma_common_from(p, b, 0);
        let n = (b.len() - common) as nat;
        let tail = p.subrange(common, p.len() as int);
        let q = parent_refs(n) + tail;
        assert(spec_diff_paths(absolute, base) == Some(render(false, q)));
        assert(absolute.len() > 0);
        assert(spec_make_relative(path, base) == render(false, q));
        assert forall|k: int| 0 <= k < q.len() implies clean_name(#[trigger] q[k]) || q[k] == ".."@ by {
            if k >= n {
                assert(q[k] == p[common + k - n]);
            }
        }
        lemma_resolve_pieces(q, base);
        lemma_norm_from_concat(b, parent_refs(n), tail, true);
        lemma_norm_climb(b, n);
        assert(all_clean(tail)) by {
            assert forall|k: int| 0 <= k < tail.len() implies clean_name(#[trigger] tail[k]) by {
                assert(tail[k] == p[common + k]);
            }
        }
        lemma_norm_append_clean(b.take(common), tail);
        assert(b.take(common) + tail =~= p);
    }
}

// ---------------------------------------------------------------------------
// Saving then loading gives the whole document back
// ---------------------------------------------------------------------------

/// A stored path that survives a round trip: absolute, or empty.
pub open spec fn path_round_trips(p: Seq<char>) -> bool {
    has_root(p) || p.len() == 0
}

/// What a round trip makes of a stored path: the path normalised; an empty
/// path stays empty.
pub open spec fn round_trip() -> spec_fn(Seq<char>) -> Seq<char> {
    |p: Seq<char>| if p.len() == 0 {
        p
    } else {
        spec_normalize(p)
    }
}

pub open spec fn opt_round_trips(o: Option<String>) -> bool {
    match o {
        Some(p) => path_round_trips(p@),
        None => true,
    }
}

pub open spec fn firmware_round_trips(f: FirmwareSource) -> bool {
    path_round_trips(f.path@) && opt_round_trips(f.compiled_hex_path)
}

pub open spec fn firmware_opt_round_trips(f: Option<FirmwareSource>) -> bool {
    match f {
        Some(x) => firmware_round_trips(x),
        None => true,
    }
}

pub open spec fn reference_opt_round_trips(r: Option<DefinitionReference>) -> bool {
    match r {
        Some(x) => opt_round_trips(x.path),
        None => true,
    }
}

pub open spec fn instance_round_trips(i: AttachedInstance) -> bool {
    opt_round_trips(i.reference.path) && firmware_opt_round_trips(i.firmware_override)
}

pub open spec fn member_round_trips(m: AssemblyMember) -> bool {
    &&& opt_round_trips(m.source.path)
    &&& firmware_opt_round_trips(m.firmware)
    &&& reference_opt_round_trips(m.behavior)
}

/// Every stored path of the document is absolute or empty.
pub open spec fn document_round_trips(d: AvrSimDocument) -> bool {
    match d {
        AvrSimDocument::SimulationProject(p) => {
            &&& firmware_round_trips(p.firmware)
            &&& path_round_trips(p.pcb.path@)
            &&& reference_opt_round_trips(p.root_assembly)
        },
        AvrSimDocument::BoardDefinition(b) => opt_round_trips(b.source.path) && firmware_opt_round_trips(
            b.default_firmware,
        ),
        AvrSimDocument::ModuleDefinition(m) => opt_round_trips(m.source.path) && firmware_opt_round_trips(
            m.default_firmware,
        ),
        AvrSimDocument::AssemblyDefinition(a) => opt_round_trips(a.primary.path) && forall|i: int|
            0 <= i < a.children@.len() ==> instance_round_trips(#[trigger] a.children@[i]),
        AvrSimDocument::AssemblyBundle(b) => member_round_trips(b.primary) && forall|i: int|
            0 <= i < b.children@.len() ==> member_round_trips(#[trigger] b.children@[i]),
        AvrSimDocument::BehaviorDefinition(_) => true,
    }
}

proof fn lemma_path_round_trip(p: Seq<char>, base: Seq<char>)
    requires
        path_round_trips(p),
        has_root(base),
    ensures
        relocated(relocated(p, base, true), base, false) == round_trip()(p),
{
    law_saved_path_resolves_back(p, base);
}

proof fn lemma_opt_round_trip(a: Option<String>, b: Option<String>, c: Option<String>, base: Seq<char>)
    requires
        opt_round_trips(a),
        has_root(base),
        relocated_opt(a, b, relocation(base, true)),
        relocated_opt(b, c, relocation(base, false)),
    ensures
        relocated_opt(a, c, round_trip()),
{
    if let Some(x) = a {
        lemma_path_round_trip(x@, base);
    }
}

proof fn lemma_firmware_round_trip(a: FirmwareSource, b: FirmwareSource, c: FirmwareSource, base: Seq<char>)
    requires
        firmware_round_trips(a),
        has_root(base),
        firmware_relocated(a, b, relocation(base, true)),
        firmware_relocated(b, c, relocation(base, false)),
    ensures
        firmware_relocated(a, c, round_trip()),
{
    lemma_path_round_trip(a.path@, base);
    lemma_opt_round_trip(a.compiled_hex_path, b.compiled_hex_path, c.compiled_hex_path, base);
}

proof fn lemma_firmware_opt_round_trip(
    a: Option<FirmwareSource>,
    b: Option<FirmwareSource>,
    c: Option<FirmwareSource>,
    base: Seq<char>,
)
    requires
        firmware_opt_round_trips(a),
        has_root(base),
        firmware_opt_relocated(a, b, relocation(base, true)),
        firmware_opt_relocated(b, c, relocation(base, false)),
    ensures
        firmware_opt_relocated(a, c, round_trip()),
{
    if let Some(x) = a {
        lemma_firmware_round_trip(x, b.unwrap(), c.unwrap(), base);
    }
}

proof fn lemma_reference_round_trip(
    a: DefinitionReference,
    b: DefinitionReference,
    c: DefinitionReference,
    base: Seq<char>,
)
    requires
        opt_round_trips(a.path),
        has_root(base),
        reference_relocated(a, b, relocation(base, true)),
        reference_relocated(b, c, relocation(base, false)),
    ensures
        reference_relocated(a, c, round_trip()),
{
    lemma_opt_round_trip(a.path, b.path, c.path, base);
}

proof fn lemma_reference_opt_round_trip(
    a: Option<DefinitionReference>,
    b: Option<DefinitionReference>,
    c: Option<DefinitionReference>,
    base: Seq<char>,
)
    requires
        reference_opt_round_trips(a),
        has_root(base),
        reference_opt_relocated(a, b, relocation(base, true)),
        reference_opt_relocated(b, c, relocation(base, false)),
    ensures
        reference_opt_relocated(a, c, round_trip()),
{
    if let Some(x) = a {
        lemma_reference_round_trip(x, b.unwrap(), c.unwrap(), base);
    }
}

proof fn lemma_source_round_trip(a: DefinitionSource, b: DefinitionSource, c: DefinitionSource, base: Seq<char>)
    requires
        opt_round_trips(a.path),
        has_root(base),
        source_relocated(a, b, relocation(base, true)),
        source_relocated(b, c, relocation(base, false)),
    ensures
        source_relocated(a, c, round_trip()),
{
    lemma_opt_round_trip(a.path, b.path, c.path, base);
}

proof fn lemma_instance_round_trip(a: AttachedInstance, b: AttachedInstance, c: AttachedInstance, base: Seq<char>)
    requires
        instance_round_trips(a),
        has_root(base),
        instance_relocated(a, b, relocation(base, true)),
        instance_relocated(b, c, relocation(base, false)),
    ensures
        instance_relocated(a, c, round_trip()),
{
    lemma_reference_round_trip(a.reference, b.reference, c.reference, base);
    lemma_firmware_opt_round_trip(a.firmware_override, b.firmware_override, c.firmware_override, base);
}

proof fn lemma_member_round_trip(a: AssemblyMember, b: AssemblyMember, c: AssemblyMember, base: Seq<char>)
    requires
        member_round_trips(a),
        has_root(base),
        member_relocated(a, b, relocation(base, true)),
        member_relocated(b, c, relocation(base, false)),
    ensures
        member_relocated(a, c, round_trip()),
{
    lemma_source_round_trip(a.source, b.source, c.source, base);
    lemma_firmware_opt_round_trip(a.firmware, b.firmware, c.firmware, base);
    lemma_reference_opt_round_trip(a.behavior, b.behavior, c.behavior, base);
}

/// A document saved next to `base` (an absolute directory, where it is
/// written) and loaded from there again is the document itself, each
/// stored path normalised: its paths are first made relative to `base`,
/// then resolved against it, and everything else is kept.
pub proof fn law_saved_document_loads_back(
    document: AvrSimDocument,
    saved: AvrSimDocument,
    loaded: AvrSimDocument,
    base: Seq<char>,
)
    requires
        document_round_trips(document),
        has_root(base),
        document_relocated(document, saved, relocation(base, true)),
        document_relocated(saved, loaded, relocation(base, false)),
    ensures
        document_relocated(document, loaded, round_trip()),
{
    match document {
        AvrSimDocument::SimulationProject(a) => {
            let b = saved->SimulationProject_0;
            let c = loaded->SimulationProject_0;
            lemma_firmware_round_trip(a.firmware, b.firmware, c.firmware, base);
            lemma_path_round_trip(a.pcb.path@, base);
            lemma_reference_opt_round_trip(a.root_assembly, b.root_assembly, c.root_assembly, base);
        },
        AvrSimDocument::BoardDefinition(a) => {
            let b = saved->BoardDefinition_0;
            let c = loaded->BoardDefinition_0;
            lemma_source_round_trip(a.source, b.source, c.source, base);
            lemma_firmware_opt_round_trip(a.default_firmware, b.default_firmware, c.default_firmware, base);
        },
        AvrSimDocument::ModuleDefinition(a) => {
            let b = saved->ModuleDefinition_0;
            let c = loaded->ModuleDefinition_0;
            lemma_source_round_trip(a.source, b.source, c.source, base);
            lemma_firmware_opt_round_trip(a.default_firmware, b.default_firmware, c.default_firmware, base);
        },
        AvrSimDocument::AssemblyDefinition(a) => {
            let b = saved->AssemblyDefinition_0;
            let c = loaded->AssemblyDefinition_0;
            lemma_reference_round_trip(a.primary, b.primary, c.primary, base);
            assert forall|i: int| 0 <= i < a.children@.len() implies instance_relocated(
                a.children@[i],
                #[trigger] c.children@[i],
                round_trip(),
            ) by {
                assert(instance_round_trips(a.children@[i]));
                assert(instance_relocated(a.children@[i], b.children@[i], relocation(base, true)));
                assert(instance_relocated(b.children@[i], c.children@[i], relocation(base, false)));
                lemma_instance_round_trip(a.children@[i], b.children@[i], c.children@[i], base);
            }
        },
        AvrSimDocument::AssemblyBundle(a) => {
            let b = saved->AssemblyBundle_0;
            let c = loaded->AssemblyBundle_0;
            lemma_member_round_trip(a.primary, b.primary, c.primary, base);
            assert forall|i: int| 0 <= i < a.children@.len() implies member_relocated(
                a.children@[i],
                #[trigger] c.children@[i],
                round_trip(),
            ) by {
                assert(member_round_trips(a.children@[i]));
                assert(member_relocated(a.children@[i], b.children@[i], relocation(base, true)));
                assert(member_relocated(b.children@[i], c.children@[i], relocation(base, false)));
                lemma_member_round_trip(a.children@[i], b.children@[i], c.children@[i], base);
            }
        },
        AvrSimDocument::BehaviorDefinition(_) => {},
    }
}

} // verus!
