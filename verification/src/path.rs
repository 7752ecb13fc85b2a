//! Paths as character sequences with `/` as the separator.
//!
//! The functions here follow `std::path::Path` on Unix: joining, the final
//! component, its stem and extension, replacing the extension, and the
//! component-wise prefix test. Names are taken literally: a final `.`
//! component is not normalised away. As on Unix, `\` is an ordinary
//! character, not a separator.

use vstd::prelude::*;
use crate::text::{chars_eq, chars_of, extend_chars, lemma_split_on_concat, split_chars, split_on, string_of};

verus! {

/// `p` without its trailing `/` characters.
pub open spec fn trim_trailing_slashes(p: Seq<char>) -> Seq<char>
    decreases p.len(),
{
    if p.len() > 0 && p.last() == '/' {
        trim_trailing_slashes(p.drop_last())
    } else {
        p
    }
}

/// The characters of `p` after its last `/`.
pub open spec fn last_segment(p: Seq<char>) -> Seq<char>
    decreases p.len(),
{
    if p.len() == 0 || p.last() == '/' {
        Seq::<char>::empty()
    } else {
        last_segment(p.drop_last()).push(p.last())
    }
}

/// The final component of `p` (`Path::file_name`): none for an empty path,
/// the root, or a path ending in `..`.
pub open spec fn file_name(p: Seq<char>) -> Option<Seq<char>> {
    let n = last_segment(trim_trailing_slashes(p));
    if n.len() == 0 || n == seq!['.', '.'] {
        None
    } else {
        Some(n)
    }
}

pub proof fn lemma_last_dot_range(s: Seq<char>)
    ensures
        last_dot(s) matches Some(k) ==> 0 <= k < s.len() && s[k] == '.',
    decreases s.len(),
{
    if s.len() > 0 && s.last() != '.' {
        lemma_last_dot_range(s.drop_last());
    }
}

/// The stem of a name is a prefix of it.
pub proof fn lemma_split_name_stem(name: Seq<char>)
    ensures
        split_name(name).0.len() <= name.len(),
        split_name(name).0 == name.subrange(0, split_name(name).0.len() as int),
{
    lemma_last_dot_range(name);
    assert(name.subrange(0, name.len() as int) =~= name);
}

/// Position of the last `.` in `s`, if any.
pub open spec fn last_dot(s: Seq<char>) -> Option<int>
    decreases s.len(),
{
    if s.len() == 0 {
        None
    } else if s.last() == '.' {
        Some(s.len() - 1)
    } else {
        last_dot(s.drop_last())
    }
}

/// The stem and extension of a file name, split at the last `.`; a name
/// whose only `.` is its first character has no extension.
pub open spec fn split_name(name: Seq<char>) -> (Seq<char>, Option<Seq<char>>) {
    match last_dot(name) {
        Some(k) => if k == 0 {
            (name, None)
        } else {
            (name.subrange(0, k), Some(name.subrange(k + 1, name.len() as int)))
        },
        None => (name, None),
    }
}

/// `Path::file_stem`.
pub open spec fn file_stem(p: Seq<char>) -> Option<Seq<char>> {
    match file_name(p) {
        Some(n) => Some(split_name(n).0),
        None => None,
    }
}

/// `Path::extension`.
pub open spec fn extension(p: Seq<char>) -> Option<Seq<char>> {
    match file_name(p) {
        Some(n) => split_name(n).1,
        None => None,
    }
}

/// `Path::join` / `PathBuf::push`: an absolute `child` replaces `base`;
/// otherwise a `/` is inserted unless `base` is empty or already ends in one.
pub open spec fn path_join(base: Seq<char>, child: Seq<char>) -> Seq<char> {
    if child.len() > 0 && child[0] == '/' {
        child
    } else if base.len() == 0 || base.last() == '/' {
        base + child
    } else {
        base + seq!['/'] + child
    }
}

/// `Path::with_extension`: the path cut right after the stem of its final
/// component, followed by `.ext` when `ext` is not empty. A path without a
/// final component is returned unchanged.
pub open spec fn with_extension(p: Seq<char>, ext: Seq<char>) -> Seq<char> {
    match file_name(p) {
        None => p,
        Some(n) => {
            let t = trim_trailing_slashes(p);
            let stem = split_name(n).0;
            let kept = t.subrange(0, t.len() - n.len() + stem.len());
            if ext.len() == 0 {
                kept
            } else {
                kept + seq!['.'] + ext
            }
        },
    }
}

/// `Path::with_file_name`: the final component replaced by `name`, or
/// `name` joined on when the path has no final component. The parent keeps
/// its spelling, separators included.
pub open spec fn with_file_name(p: Seq<char>, name: Seq<char>) -> Seq<char> {
    match file_name(p) {
        None => path_join(p, name),
        Some(n) => {
            let t = trim_trailing_slashes(p);
            path_join(t.subrange(0, t.len() - n.len()), name)
        },
    }
}

/// Whether `p` is absolute (starts at the root).
pub open spec fn is_absolute(p: Seq<char>) -> bool {
    p.len() > 0 && p[0] == '/'
}

/// Whether a `/`-separated piece contributes a component: empty pieces and
/// `.` are dropped, as `Path::components` does.
pub open spec fn is_component(piece: Seq<char>) -> bool {
    piece.len() > 0 && piece != seq!['.']
}

/// The pieces that are components, in order.
pub open spec fn keep_components(pieces: Seq<Seq<char>>) -> Seq<Seq<char>>
    decreases pieces.len(),
{
    if pieces.len() == 0 {
        Seq::<Seq<char>>::empty()
    } else {
        let r = keep_components(pieces.drop_last());
        if is_component(pieces.last()) {
            r.push(pieces.last())
        } else {
            r
        }
    }
}

/// Whether a relative path starts with the current-directory component
/// `.` (the path `.` itself, or one starting `./`), which
/// `Path::components` keeps at the front.
pub open spec fn leading_cur_dir(p: Seq<char>) -> bool {
    p == seq!['.'] || (p.len() >= 2 && p[0] == '.' && p[1] == '/')
}

/// The components of `p`, as `Path::components` gives them: an absolute
/// path starts with the root component `/`, which no other component can
/// equal; a relative path starting with `.` keeps that `.` first; every
/// other `.` and empty piece is dropped.
pub open spec fn components(p: Seq<char>) -> Seq<Seq<char>> {
    let names = keep_components(split_on(p, '/'));
    if is_absolute(p) {
        seq![seq!['/']] + names
    } else if leading_cur_dir(p) {
        seq![seq!['.']] + names
    } else {
        names
    }
}

/// `Path::starts_with`: `base`'s components are a prefix of `p`'s.
pub open spec fn path_starts_with(p: Seq<char>, base: Seq<char>) -> bool {
    let a = components(p);
    let b = components(base);
    b.len() <= a.len() && b == a.subrange(0, b.len() as int)
}

// ---------------------------------------------------------------------------
// Executable forms
// ---------------------------------------------------------------------------

fn trim_trailing_slashes_len(p: &Vec<char>) -> (k: usize)
    ensures
        k <= p.len(),
        trim_trailing_slashes(p@) == p@.subrange(0, k as int),
{
    let mut k = p.len();
    assert(p@.subrange(0, k as int) =~= p@);
    while k > 0 && p[k - 1] == '/'
        invariant
            k <= p.len(),
            trim_trailing_slashes(p@) == trim_trailing_slashes(p@.subrange(0, k as int)),
        decreases k,
    {
        let ghost s = p@.subrange(0, k as int);
        assert(s.drop_last() =~= p@.subrange(0, k - 1));
        k = k - 1;
    }
    let ghost s = p@.subrange(0, k as int);
    assert(s.len() == 0 || s.last() != '/');
    k
}

fn last_segment_start(p: &Vec<char>, end: usize) -> (j: usize)
    requires
        end <= p.len(),
    ensures
        j <= end,
        last_segment(p@.subrange(0, end as int)) == p@.subrange(j as int, end as int),
{
    let mut j = end;
    while j > 0 && p[j - 1] != '/'
        invariant
            j <= end <= p.len(),
            last_segment(p@.subrange(0, end as int)) == last_segment(p@.subrange(0, j as int))
                + p@.subrange(j as int, end as int),
        decreases j,
    {
        let ghost s = p@.subrange(0, j as int);
        assert(s.drop_last() =~= p@.subrange(0, j - 1));
        assert(p@.subrange(j - 1, end as int) =~= seq![p@[j - 1]] + p@.subrange(
            j as int,
            end as int,
        ));
        assert(last_segment(s) == last_segment(s.drop_last()).push(s.last()));
        assert(last_segment(s.drop_last()).push(s.last()) + p@.subrange(j as int, end as int)
            =~= last_segment(s.drop_last()) + p@.subrange(j - 1, end as int));
        j = j - 1;
    }
    let ghost s = p@.subrange(0, j as int);
    assert(last_segment(s) =~= Seq::<char>::empty());
    assert(Seq::<char>::empty() + p@.subrange(j as int, end as int) =~= p@.subrange(
        j as int,
        end as int,
    ));
    j
}

/// Bounds of the final component inside `p`, when there is one.
fn file_name_bounds(p: &Vec<char>) -> (r: Option<(usize, usize)>)
    ensures
        match r {
            Some((a, b)) => a <= b <= p.len() && file_name(p@) == Some(p@.subrange(a as int, b as int))
                && trim_trailing_slashes(p@) == p@.subrange(0, b as int),
            None => file_name(p@) is None,
        },
{
    let end = trim_trailing_slashes_len(p);
    let start = last_segment_start(p, end);
    if start == end {
        return None;
    }
    if end - start == 2 && p[start] == '.' && p[start + 1] == '.' {
        assert(p@.subrange(start as int, end as int) =~= seq!['.', '.']);
        return None;
    }
    proof {
        let n = p@.subrange(start as int, end as int);
        let dd = seq!['.', '.'];
        assert(dd.len() == 2);
        if n == dd {
            assert(n.len() == 2);
            assert(n[0] == p@[start as int]);
            assert(n[1] == p@[start + 1]);
            assert(dd[0] == '.' && dd[1] == '.');
        }
        assert(n.len() != 0);
    }
    Some((start, end))
}

fn last_dot_in(p: &Vec<char>, a: usize, b: usize) -> (r: Option<usize>)
    requires
        a <= b <= p.len(),
    ensures
        match r {
            Some(k) => a <= k < b && last_dot(p@.subrange(a as int, b as int)) == Some(k - a),
            None => last_dot(p@.subrange(a as int, b as int)) is None,
        },
{
    let mut k = b;
    while k > a
        invariant
            a <= k <= b <= p.len(),
            last_dot(p@.subrange(a as int, b as int)) == last_dot(p@.subrange(a as int, k as int)),
        decreases k,
    {
        let ghost s = p@.subrange(a as int, k as int);
        assert(s.last() == p@[k - 1]);
        if p[k - 1] == '.' {
            return Some(k - 1);
        }
        assert(s.drop_last() =~= p@.subrange(a as int, k - 1));
        k = k - 1;
    }
    None
}

fn copy_range(p: &Vec<char>, a: usize, b: usize) -> (r: Vec<char>)
    requires
        a <= b <= p.len(),
    ensures
        r@ == p@.subrange(a as int, b as int),
{
    let mut r: Vec<char> = Vec::new();
    let mut i = a;
    while i < b
        invariant
            a <= i <= b <= p.len(),
            r@ == p@.subrange(a as int, i as int),
        decreases b - i,
    {
        r.push(p[i]);
        assert(p@.subrange(a as int, i + 1) =~= p@.subrange(a as int, i as int).push(p@[i as int]));
        i = i + 1;
    }
    r
}

/// `Path::file_name` on a character sequence.
pub fn file_name_chars(p: &Vec<char>) -> (r: Option<Vec<char>>)
    ensures
        match r {
            Some(v) => file_name(p@) == Some(v@),
            None => file_name(p@) is None,
        },
{
    match file_name_bounds(p) {
        Some((a, b)) => Some(copy_range(p, a, b)),
        None => None,
    }
}

/// Stem and extension of a file name.
pub fn split_name_chars(n: &Vec<char>) -> (r: (Vec<char>, Option<Vec<char>>))
    ensures
        r.0@ == split_name(n@).0,
        match r.1 {
            Some(e) => split_name(n@).1 == Some(e@),
            None => split_name(n@).1 is None,
        },
{
    assert(n@.subrange(0, n@.len() as int) =~= n@);
    match last_dot_in(n, 0, n.len()) {
        Some(k) => {
            if k == 0 {
                (copy_range(n, 0, n.len()), None)
            } else {
                (copy_range(n, 0, k), Some(copy_range(n, k + 1, n.len())))
            }
        },
        None => (copy_range(n, 0, n.len()), None),
    }
}

/// `Path::file_stem` on a string.
pub fn file_stem_str(p: &str) -> (r: Option<String>)
    ensures
        match r {
            Some(s) => file_stem(p@) == Some(s@),
            None => file_stem(p@) is None,
        },
{
    let v = chars_of(p);
    match file_name_chars(&v) {
        Some(n) => {
            let (stem, _) = split_name_chars(&n);
            Some(string_of(&stem))
        },
        None => None,
    }
}

/// `Path::extension` on a string.
pub fn extension_str(p: &str) -> (r: Option<String>)
    ensures
        match r {
            Some(s) => extension(p@) == Some(s@),
            None => extension(p@) is None,
        },
{
    let v = chars_of(p);
    match file_name_chars(&v) {
        Some(n) => {
            let (_, ext) = split_name_chars(&n);
            match ext {
                Some(e) => Some(string_of(&e)),
                None => None,
            }
        },
        None => None,
    }
}

/// `Path::file_name` on a string.
pub fn file_name_str(p: &str) -> (r: Option<String>)
    ensures
        match r {
            Some(s) => file_name(p@) == Some(s@),
            None => file_name(p@) is None,
        },
{
    let v = chars_of(p);
    match file_name_chars(&v) {
        Some(n) => Some(string_of(&n)),
        None => None,
    }
}

/// `Path::join` on character sequences.
pub fn join_path_chars(base: &Vec<char>, child: &Vec<char>) -> (r: Vec<char>)
    ensures
        r@ == path_join(base@, child@),
{
    if child.len() > 0 && child[0] == '/' {
        return copy_range(child, 0, child.len());
    }
    let mut r = copy_range(base, 0, base.len());
    if !(base.len() == 0 || base[base.len() - 1] == '/') {
        r.push('/');
    }
    extend_chars(&mut r, child);
    assert(base@.subrange(0, base@.len() as int) =~= base@);
    assert(child@.subrange(0, child@.len() as int) =~= child@);
    r
}

/// `Path::join` on strings.
pub fn join_path(base: &str, child: &str) -> (r: String)
    ensures
        r@ == path_join(base@, child@),
{
    let b = chars_of(base);
    let c = chars_of(child);
    let r = join_path_chars(&b, &c);
    string_of(&r)
}

/// `Path::with_extension` on strings.
pub fn with_extension_str(p: &str, ext: &str) -> (r: String)
    ensures
        r@ == with_extension(p@, ext@),
{
    let v = chars_of(p);
    let e = chars_of(ext);
    match file_name_bounds(&v) {
        None => string_of(&v),
        Some((a, b)) => {
            let n = copy_range(&v, a, b);
            let (stem, _) = split_name_chars(&n);
            proof {
                lemma_split_name_stem(n@);
            }
            let mut kept = copy_range(&v, 0, a + stem.len());
            proof {
                let t = trim_trailing_slashes(v@);
                assert(t == v@.subrange(0, b as int));
                assert(t.subrange(0, t.len() - n@.len() + stem@.len()) =~= v@.subrange(
                    0,
                    a + stem@.len(),
                ));
            }
            if e.len() > 0 {
                kept.push('.');
                extend_chars(&mut kept, &e);
            }
            string_of(&kept)
        },
    }
}

/// `Path::with_file_name` on strings.
pub fn with_file_name_str(p: &str, name: &str) -> (r: String)
    ensures
        r@ == with_file_name(p@, name@),
{
    let v = chars_of(p);
    let nm = chars_of(name);
    match file_name_bounds(&v) {
        None => {
            let r = join_path_chars(&v, &nm);
            string_of(&r)
        },
        Some((a, b)) => {
            let parent = copy_range(&v, 0, a);
            proof {
                let t = trim_trailing_slashes(v@);
                assert(t.subrange(0, t.len() - (b - a)) =~= v@.subrange(0, a as int));
            }
            let r = join_path_chars(&parent, &nm);
            string_of(&r)
        },
    }
}

/// Whether a string path is absolute.
pub fn is_absolute_str(p: &str) -> (r: bool)
    ensures
        r == is_absolute(p@),
{
    let v = chars_of(p);
    v.len() > 0 && v[0] == '/'
}

fn is_component_chars(piece: &Vec<char>) -> (r: bool)
    ensures
        r == is_component(piece@),
{
    if piece.len() == 0 {
        return false;
    }
    if piece.len() == 1 && piece[0] == '.' {
        assert(piece@ =~= seq!['.']);
        return false;
    }
    proof {
        if piece@ == seq!['.'] {
            assert(piece@[0] == '.');
        }
    }
    true
}

/// The components of a path (see [`components`]).
pub fn components_chars(p: &Vec<char>) -> (r: Vec<Vec<char>>)
    ensures
        r@.len() == components(p@).len(),
        forall|i: int| 0 <= i < r@.len() ==> (#[trigger] r@[i])@ == components(p@)[i],
{
    let pieces = split_chars(p, '/');
    let ghost sp = split_on(p@, '/');
    let mut r: Vec<Vec<char>> = Vec::new();
    let ghost root: Seq<Seq<char>> = if is_absolute(p@) {
        seq![seq!['/']]
    } else if leading_cur_dir(p@) {
        seq![seq!['.']]
    } else {
        Seq::<Seq<char>>::empty()
    };
    if p.len() > 0 && p[0] == '/' {
        let mut rt: Vec<char> = Vec::new();
        rt.push('/');
        assert(rt@ =~= seq!['/']);
        r.push(rt);
    } else if (p.len() == 1 && p[0] == '.') || (p.len() >= 2 && p[0] == '.' && p[1] == '/') {
        let mut cur: Vec<char> = Vec::new();
        cur.push('.');
        assert(cur@ =~= seq!['.']);
        r.push(cur);
        proof {
            if p.len() == 1 {
                assert(p@ =~= seq!['.']);
            }
            assert(leading_cur_dir(p@));
        }
    } else {
        proof {
            if p@ == seq!['.'] {
                assert(p@[0] == '.');
            }
        }
    }
    proof {
        assert(sp.subrange(0, 0) =~= Seq::<Seq<char>>::empty());
        assert(root + keep_components(sp.subrange(0, 0)) =~= root);
        assert(r@.len() == root.len());
        assert forall|j: int| 0 <= j < r@.len() implies (#[trigger] r@[j])@ == root[j] by {}
    }
    let mut i: usize = 0;
    while i < pieces.len()
        invariant
            i <= pieces.len(),
            pieces@.len() == sp.len(),
            forall|j: int| 0 <= j < pieces@.len() ==> (#[trigger] pieces@[j])@ == sp[j],
            r@.len() == root.len() + keep_components(
                sp.subrange(0, i as int),
            ).len(),
            forall|j: int|
                0 <= j < r@.len() ==> (#[trigger] r@[j])@ == (root + keep_components(
                    sp.subrange(0, i as int),
                ))[j],
        decreases pieces.len() - i,
    {
        let ghost prev = sp.subrange(0, i as int);
        let ghost next = sp.subrange(0, i + 1);
        assert(next.drop_last() =~= prev);
        assert(next.last() == sp[i as int]);
        let ghost before = r@;
        if is_component_chars(&pieces[i]) {
            let piece = copy_range(&pieces[i], 0, pieces[i].len());
            assert(pieces@[i as int]@.subrange(0, pieces@[i as int]@.len() as int) =~= pieces@[i as int]@);
            r.push(piece);
            assert(root + keep_components(next) =~= (root + keep_components(prev)).push(sp[i as int]));
            assert forall|j: int| 0 <= j < r@.len() implies (#[trigger] r@[j])@ == (root
                + keep_components(next))[j] by {
                if j < before.len() {
                    assert(r@[j] == before[j]);
                }
            }
        }
        i = i + 1;
    }
    assert(sp.subrange(0, pieces@.len() as int) =~= sp);
    r
}

fn components_eq_prefix(a: &Vec<Vec<char>>, b: &Vec<Vec<char>>) -> (r: bool)
    ensures
        r == (b@.len() <= a@.len() && forall|i: int| 0 <= i < b@.len() ==> (#[trigger] b@[i])@ == a@[i]@),
{
    if b.len() > a.len() {
        return false;
    }
    let mut i: usize = 0;
    while i < b.len()
        invariant
            b@.len() <= a@.len(),
            i <= b.len(),
            forall|j: int| 0 <= j < i ==> (#[trigger] b@[j])@ == a@[j]@,
        decreases b.len() - i,
    {
        if !chars_eq(&b[i], &a[i]) {
            return false;
        }
        i = i + 1;
    }
    true
}

/// `Path::starts_with` on strings.
pub fn path_starts_with_str(p: &str, base: &str) -> (r: bool)
    ensures
        r == path_starts_with(p@, base@),
{
    let pv = chars_of(p);
    let bv = chars_of(base);
    let a = components_chars(&pv);
    let b = components_chars(&bv);
    let r = components_eq_prefix(&a, &b);
    proof {
        let ca = components(p@);
        let cb = components(base@);
        if r {
            assert forall|i: int| 0 <= i < cb.len() implies cb[i] == ca.subrange(0, cb.len() as int)[i] by {
                assert(cb[i] == b@[i]@);
                assert(b@[i]@ == a@[i]@);
            }
            assert(cb =~= ca.subrange(0, cb.len() as int));
        }
        if cb.len() <= ca.len() && cb == ca.subrange(0, cb.len() as int) {
            assert forall|i: int| 0 <= i < b@.len() implies (#[trigger] b@[i])@ == a@[i]@ by {
                assert(cb[i] == ca.subrange(0, cb.len() as int)[i]);
            }
        }
    }
    r
}

/// `Path` equality: the same components.
pub open spec fn same_path(a: Seq<char>, b: Seq<char>) -> bool {
    components(a) == components(b)
}

/// `Path` equality on strings.
pub fn same_path_str(a: &str, b: &str) -> (r: bool)
    ensures
        r == same_path(a@, b@),
{
    let ab = path_starts_with_str(a, b);
    let ba = path_starts_with_str(b, a);
    proof {
        let x = components(a@);
        let y = components(b@);
        if ab && ba {
            assert(x.len() == y.len());
            assert(x.subrange(0, x.len() as int) =~= x);
        }
        if x == y {
            assert(x.subrange(0, x.len() as int) =~= x);
        }
    }
    ab && ba
}

proof fn lemma_keep_components_concat(x: Seq<Seq<char>>, y: Seq<Seq<char>>)
    ensures
        keep_components(x + y) == keep_components(x) + keep_components(y),
    decreases y.len(),
{
    if y.len() == 0 {
        assert(x + y =~= x);
        assert(keep_components(x) + keep_components(y) =~= keep_components(x));
    } else {
        lemma_keep_components_concat(x, y.drop_last());
        assert((x + y).drop_last() =~= x + y.drop_last());
        assert((x + y).last() == y.last());
        if is_component(y.last()) {
            assert((keep_components(x) + keep_components(y.drop_last())).push(y.last()) =~= keep_components(x)
                + keep_components(y.drop_last()).push(y.last()));
        }
    }
}

/// Joining a relative path onto a non-empty base adds the child's named
/// components after the base's (a leading `.` of the child is dropped);
/// onto an empty base the result is the child itself.
pub proof fn lemma_components_join(base: Seq<char>, child: Seq<char>)
    requires
        !is_absolute(child),
    ensures
        base.len() == 0 ==> components(path_join(base, child)) == components(child),
        base.len() > 0 ==> components(path_join(base, child)) == components(base) + keep_components(
            split_on(child, '/'),
        ),
{
    let sc = split_on(child, '/');
    let j = path_join(base, child);
    if base.len() == 0 {
        assert(j =~= child);
    } else if base.last() == '/' {
        let b2 = base.drop_last();
        assert(base =~= b2.push('/'));
        assert(j =~= b2 + seq!['/'] + child);
        lemma_split_on_concat(b2, child, '/');
        lemma_keep_components_concat(split_on(b2, '/'), sc);
        assert(split_on(base, '/') == split_on(b2, '/').push(Seq::<char>::empty()));
        assert(keep_components(split_on(base, '/')) == keep_components(split_on(b2, '/'))) by {
            assert(split_on(b2, '/').push(Seq::<char>::empty()).drop_last() =~= split_on(b2, '/'));
        }
        assert(j[0] == base[0]);
        if base.len() >= 2 {
            assert(j[1] == base[1]);
        }
        if base == seq!['.'] {
            assert(false);
        }
        assert(leading_cur_dir(j) == leading_cur_dir(base)) by {
            if j == seq!['.'] {
                assert(j.len() == 1);
            }
            if base.len() == 1 {
                assert(base[0] == '/');
            }
        }
    } else {
        assert(j =~= base + seq!['/'] + child);
        lemma_split_on_concat(base, child, '/');
        lemma_keep_components_concat(split_on(base, '/'), sc);
        assert(j[0] == base[0]);
        assert(j.len() >= 2);
        if base.len() >= 2 {
            assert(j[1] == base[1]);
        } else {
            assert(j[1] == '/');
            if base[0] == '.' {
                assert(base =~= seq!['.']);
            }
        }
        assert(leading_cur_dir(j) == leading_cur_dir(base)) by {
            if j == seq!['.'] {
                assert(j.len() == 1);
            }
            if base == seq!['.'] {
                assert(base[0] == '.');
            }
        }
    }
}

/// A path below `base` (joined on with a relative path) starts with
/// every path that `base` starts with.
pub proof fn lemma_starts_with_join(base: Seq<char>, child: Seq<char>, prefix: Seq<char>)
    requires
        !is_absolute(child),
        path_starts_with(base, prefix),
    ensures
        path_starts_with(path_join(base, child), prefix),
{
    lemma_components_join(base, child);
    let a = components(base);
    let b = components(prefix);
    if base.len() == 0 {
        assert(split_on(base, '/') =~= seq![Seq::<char>::empty()]);
        assert(keep_components(seq![Seq::<char>::empty()]) =~= Seq::<Seq<char>>::empty()) by {
            let one = seq![Seq::<char>::empty()];
            assert(one.drop_last() =~= Seq::<Seq<char>>::empty());
            assert(keep_components(Seq::<Seq<char>>::empty()) =~= Seq::<Seq<char>>::empty());
            assert(!is_component(one.last()));
        }
        assert(!leading_cur_dir(base));
        assert(a =~= Seq::<Seq<char>>::empty());
        assert(b.len() == 0);
        assert(b =~= Seq::<Seq<char>>::empty());
        assert(components(path_join(base, child)).subrange(0, 0) =~= Seq::<Seq<char>>::empty());
    } else {
        let k = keep_components(split_on(child, '/'));
        assert((a + k).subrange(0, b.len() as int) =~= a.subrange(0, b.len() as int));
    }
}

} // verus!
