//! File paths as text.
//!
//! A path is a sequence of components separated by slashes. Repeated slashes, a
//! trailing slash, and `.` anywhere but at the front of a relative path do not make a
//! component, so two spellings of a path compare equal.

use vstd::prelude::*;
use vstd::string::*;

use crate::strings::{chars_of, slice_text};

verus! {

/// Where the piece starting at `i` ends: at the next slash or at the end of the text.
pub open spec fn piece_end(s: Seq<char>, i: int) -> int
    decreases s.len() - i,
{
    if i >= s.len() || s[i] == '/' {
        i
    } else {
        piece_end(s, i + 1)
    }
}

proof fn lemma_piece_end(s: Seq<char>, i: int)
    requires
        0 <= i <= s.len(),
    ensures
        i <= piece_end(s, i) <= s.len(),
        i < s.len() && s[i] != '/' ==> i < piece_end(s, i),
    decreases s.len() - i,
{
    if i < s.len() && s[i] != '/' {
        lemma_piece_end(s, i + 1);
    }
}

/// The components from position `i` on, each as the range of characters it covers.
pub open spec fn names_from(s: Seq<char>, i: int) -> Seq<(int, int)>
    decreases s.len() - i,
    via names_from_decreases
{
    if i < 0 || i >= s.len() {
        Seq::empty()
    } else if s[i] == '/' {
        names_from(s, i + 1)
    } else if piece_end(s, i) == i + 1 && s[i] == '.' && i > 0 {
        names_from(s, piece_end(s, i))
    } else {
        seq![(i, piece_end(s, i))] + names_from(s, piece_end(s, i))
    }
}

#[via_fn]
proof fn names_from_decreases(s: Seq<char>, i: int) {
    if 0 <= i < s.len() {
        lemma_piece_end(s, i);
    }
}

/// The components of a path: the root first if it is absolute, then the names.
pub open spec fn components(s: Seq<char>) -> Seq<(int, int)> {
    if s.len() > 0 && s[0] == '/' {
        seq![(0int, 1int)] + names_from(s, 1)
    } else {
        names_from(s, 0)
    }
}

/// The text of component `k`.
pub open spec fn component(s: Seq<char>, k: int) -> Seq<char> {
    s.subrange(components(s)[k].0, components(s)[k].1)
}

/// The first `n` components of `a` and `b` are the same.
pub open spec fn share(a: Seq<char>, b: Seq<char>, n: int) -> bool {
    &&& n <= components(a).len()
    &&& n <= components(b).len()
    &&& forall|k: int| 0 <= k < n ==> #[trigger] component(a, k) == component(b, k)
}

/// Two spellings of one path.
pub open spec fn same_path(a: Seq<char>, b: Seq<char>) -> bool {
    components(a).len() == components(b).len() && share(a, b, components(a).len() as int)
}

/// What is left of `path` behind the components of `base`, or nothing when `base` is
/// not a prefix of it, whole components compared.
pub open spec fn below(path: Seq<char>, base: Seq<char>) -> Option<Seq<char>> {
    let n = components(base).len() as int;
    let parts = components(path);
    if !share(path, base, n) {
        None
    } else if n == parts.len() {
        Some(Seq::empty())
    } else {
        Some(path.subrange(parts[n].0, parts.last().1))
    }
}

/// `path` is directly inside `base`: its components are those of `base` and one more.
pub open spec fn child_of(path: Seq<char>, base: Seq<char>) -> bool {
    let n = components(base).len() as int;
    share(path, base, n) && components(path).len() == n + 1
}

/// `path` without its last component; nothing for the root and for the empty path.
pub open spec fn parent_of(path: Seq<char>) -> Option<Seq<char>> {
    let parts = components(path);
    let n = parts.len() as int;
    if n == 0 || component(path, n - 1) == seq!['/'] {
        None
    } else if n == 1 {
        Some(Seq::empty())
    } else {
        Some(path.subrange(parts[0].0, parts[n - 2].1))
    }
}

/// The last component, when it is a name.
pub open spec fn file_name_of(path: Seq<char>) -> Option<Seq<char>> {
    let n = components(path).len() as int;
    if n == 0 {
        None
    } else {
        let last = component(path, n - 1);
        if last == seq!['/'] || last == seq!['.'] || last == seq!['.', '.'] {
            None
        } else {
            Some(last)
        }
    }
}

/// `rest` inside `base`; an absolute `rest` stands for itself.
pub open spec fn joined(base: Seq<char>, rest: Seq<char>) -> Seq<char> {
    if rest.len() > 0 && rest[0] == '/' {
        rest
    } else if base.len() == 0 || base.last() == '/' {
        base + rest
    } else {
        base + seq!['/'] + rest
    }
}

proof fn lemma_names_in_range(s: Seq<char>, i: int)
    requires
        0 <= i <= s.len(),
    ensures
        forall|k: int|
            0 <= k < names_from(s, i).len() ==> i <= (#[trigger] names_from(s, i)[k]).0 < names_from(
                s,
                i,
            )[k].1 <= s.len(),
        forall|j: int, k: int|
            0 <= j < k < names_from(s, i).len() ==> (#[trigger] names_from(s, i)[j]).1
                <= (#[trigger] names_from(s, i)[k]).0,
    decreases s.len() - i,
{
    if i < s.len() {
        lemma_piece_end(s, i);
        if s[i] == '/' {
            lemma_names_in_range(s, i + 1);
            assert(names_from(s, i) == names_from(s, i + 1));
        } else {
            let end = piece_end(s, i);
            let rest = names_from(s, end);
            let all = names_from(s, i);
            lemma_names_in_range(s, end);
            if end == i + 1 && s[i] == '.' && i > 0 {
                assert(all == rest);
            } else {
                assert(all == seq![(i, end)] + rest);
                assert forall|k: int| 0 <= k < all.len() implies i <= (#[trigger] all[k]).0
                    < all[k].1 <= s.len() by {
                    if k > 0 {
                        assert(all[k] == rest[k - 1]);
                    }
                }
                assert forall|j: int, k: int| 0 <= j < k < all.len() implies (#[trigger] all[j]).1
                    <= (#[trigger] all[k]).0 by {
                    assert(all[k] == rest[k - 1]);
                    if j > 0 {
                        assert(all[j] == rest[j - 1]);
                    }
                }
            }
        }
    } else {
        assert(names_from(s, i).len() == 0);
    }
}

/// Components are non-empty, in order, and do not overlap.
pub(crate) proof fn lemma_components_in_range(s: Seq<char>)
    ensures
        forall|k: int|
            0 <= k < components(s).len() ==> 0 <= (#[trigger] components(s)[k]).0 < components(
                s,
            )[k].1 <= s.len(),
        forall|j: int, k: int|
            0 <= j < k < components(s).len() ==> (#[trigger] components(s)[j]).1
                <= (#[trigger] components(s)[k]).0,
{
    if s.len() > 0 && s[0] == '/' {
        lemma_names_in_range(s, 1);
    } else {
        lemma_names_in_range(s, 0);
    }
}

/// The ranges as integers of the mathematics.
pub open spec fn ranges(list: Seq<(usize, usize)>) -> Seq<(int, int)> {
    Seq::new(list.len(), |i: int| (list[i].0 as int, list[i].1 as int))
}

/// The components of a path, as ranges of its characters.
pub fn parts_of(chars: &Vec<char>) -> (parts: Vec<(usize, usize)>)
    ensures
        ranges(parts@) == components(chars@),
{
    let mut parts: Vec<(usize, usize)> = Vec::new();
    let mut i: usize = 0;
    if chars.len() > 0 && chars[0] == '/' {
        parts.push((0, 1));
        i = 1;
    }
    assert(ranges(parts@) + names_from(chars@, i as int) =~= components(chars@));
    while i < chars.len()
        invariant
            i <= chars.len(),
            ranges(parts@) + names_from(chars@, i as int) =~= components(chars@),
        decreases chars.len() - i,
    {
        if chars[i] == '/' {
            i += 1;
        } else {
            let mut end: usize = i + 1;
            while end < chars.len() && chars[end] != '/'
                invariant
                    i < end <= chars.len(),
                    chars@[i as int] != '/',
                    piece_end(chars@, i as int) == piece_end(chars@, end as int),
                decreases chars.len() - end,
            {
                end += 1;
            }
            let ghost before = ranges(parts@);
            if end == i + 1 && chars[i] == '.' && i > 0 {
            } else {
                parts.push((i, end));
                assert(ranges(parts@) =~= before.push((i as int, end as int)));
            }
            i = end;
        }
    }
    assert(names_from(chars@, i as int) =~= Seq::empty());
    parts
}

fn same_range(a: &Vec<char>, x: (usize, usize), b: &Vec<char>, y: (usize, usize)) -> (same: bool)
    requires
        x.0 <= x.1 <= a.len(),
        y.0 <= y.1 <= b.len(),
    ensures
        same == (a@.subrange(x.0 as int, x.1 as int) == b@.subrange(y.0 as int, y.1 as int)),
{
    let ghost s = a@.subrange(x.0 as int, x.1 as int);
    let ghost t = b@.subrange(y.0 as int, y.1 as int);
    if x.1 - x.0 != y.1 - y.0 {
        assert(s.len() != t.len());
        return false;
    }
    let n: usize = x.1 - x.0;
    let mut i: usize = 0;
    while i < n
        invariant
            i <= n,
            x.0 <= x.1 <= a.len(),
            y.0 <= y.1 <= b.len(),
            n == x.1 - x.0 == y.1 - y.0,
            s == a@.subrange(x.0 as int, x.1 as int),
            t == b@.subrange(y.0 as int, y.1 as int),
            forall|j: int| 0 <= j < i ==> s[j] == t[j],
        decreases n - i,
    {
        if a[x.0 + i] != b[y.0 + i] {
            assert(s[i as int] != t[i as int]);
            return false;
        }
        i += 1;
    }
    assert(s =~= t);
    true
}

/// Whether the first components of `path` are those of `base`.
fn starts_with(
    path: &Vec<char>,
    parts: &Vec<(usize, usize)>,
    base: &Vec<char>,
    base_parts: &Vec<(usize, usize)>,
) -> (b: bool)
    requires
        ranges(parts@) == components(path@),
        ranges(base_parts@) == components(base@),
    ensures
        b == share(path@, base@, components(base@).len() as int),
{
    proof {
        lemma_components_in_range(path@);
        lemma_components_in_range(base@);
    }
    let n: usize = base_parts.len();
    if n > parts.len() {
        return false;
    }
    let mut k: usize = 0;
    while k < n
        invariant
            k <= n <= parts.len(),
            n == base_parts.len(),
            ranges(parts@) == components(path@),
            ranges(base_parts@) == components(base@),
            forall|j: int| 0 <= j < k ==> #[trigger] component(path@, j) == component(base@, j),
            forall|k: int|
                0 <= k < components(path@).len() ==> 0 <= (#[trigger] components(path@)[k]).0
                    < components(path@)[k].1 <= path@.len(),
            forall|k: int|
                0 <= k < components(base@).len() ==> 0 <= (#[trigger] components(base@)[k]).0
                    < components(base@)[k].1 <= base@.len(),
        decreases n - k,
    {
        assert(components(path@)[k as int] == ranges(parts@)[k as int]);
        assert(components(base@)[k as int] == ranges(base_parts@)[k as int]);
        if !same_range(path, parts[k], base, base_parts[k]) {
            assert(component(path@, k as int) != component(base@, k as int));
            return false;
        }
        assert(component(path@, k as int) == component(base@, k as int));
        k += 1;
    }
    true
}

/// Whether two texts name the same path.
pub fn is_same_path(a: &str, b: &str) -> (same: bool)
    ensures
        same == same_path(a@, b@),
{
    let x = chars_of(a);
    let y = chars_of(b);
    let px = parts_of(&x);
    let py = parts_of(&y);
    proof {
        assert(ranges(px@).len() == px@.len());
        assert(ranges(py@).len() == py@.len());
    }
    px.len() == py.len() && starts_with(&x, &px, &y, &py)
}

/// Whether `path` is directly inside `base`.
pub fn is_child(path: &str, base: &str) -> (b: bool)
    ensures
        b == child_of(path@, base@),
{
    let x = chars_of(path);
    let y = chars_of(base);
    let px = parts_of(&x);
    let py = parts_of(&y);
    proof {
        assert(ranges(px@).len() == px@.len());
        assert(ranges(py@).len() == py@.len());
    }
    px.len() > 0 && px.len() - 1 == py.len() && starts_with(&x, &px, &y, &py)
}

/// What is left of `path` below `base`.
pub fn strip_prefix(path: &str, base: &str) -> (rest: Option<String>)
    ensures
        match rest {
            Some(r) => below(path@, base@) == Some(r@),
            None => below(path@, base@) is None,
        },
{
    let x = chars_of(path);
    let y = chars_of(base);
    let px = parts_of(&x);
    let py = parts_of(&y);
    proof {
        lemma_components_in_range(path@);
        assert(ranges(px@).len() == px@.len());
        assert(ranges(py@).len() == py@.len());
    }
    if !starts_with(&x, &px, &y, &py) {
        return None;
    }
    let n: usize = py.len();
    if n == px.len() {
        return Some(String::new());
    }
    proof {
        let last = px@.len() - 1;
        assert(components(path@)[n as int] == ranges(px@)[n as int]);
        assert(components(path@)[last] == ranges(px@)[last]);
        if n < last {
            assert(components(path@)[n as int].1 <= components(path@)[last].0);
        }
    }
    Some(slice_text(&x, px[n].0, px[px.len() - 1].1))
}

/// `path` without its last component.
pub fn parent(path: &str) -> (up: Option<String>)
    ensures
        match up {
            Some(p) => parent_of(path@) == Some(p@),
            None => parent_of(path@) is None,
        },
{
    let x = chars_of(path);
    let parts = parts_of(&x);
    let n: usize = parts.len();
    proof {
        lemma_components_in_range(path@);
        assert(ranges(parts@).len() == parts@.len());
    }
    if n == 0 {
        return None;
    }
    let (start, end) = parts[n - 1];
    proof {
        assert(components(path@)[n - 1] == ranges(parts@)[n - 1]);
    }
    if end - start == 1 && x[start] == '/' {
        assert(component(path@, n - 1) =~= seq!['/']);
        return None;
    }
    proof {
        let last = component(path@, n - 1);
        if last == seq!['/'] {
            assert(last.len() == 1);
            assert(last[0] == x@[start as int]);
        }
    }
    if n == 1 {
        return Some(String::new());
    }
    proof {
        assert(components(path@)[0] == ranges(parts@)[0]);
        assert(components(path@)[n - 2] == ranges(parts@)[n - 2]);
        if n > 2 {
            assert(components(path@)[0].1 <= components(path@)[n - 2].0);
        }
    }
    Some(slice_text(&x, parts[0].0, parts[n - 2].1))
}

/// The last component of `path`, when it is a name.
pub fn file_name(path: &str) -> (name: Option<String>)
    ensures
        match name {
            Some(p) => file_name_of(path@) == Some(p@),
            None => file_name_of(path@) is None,
        },
{
    let x = chars_of(path);
    let parts = parts_of(&x);
    let n: usize = parts.len();
    proof {
        lemma_components_in_range(path@);
        assert(ranges(parts@).len() == parts@.len());
    }
    if n == 0 {
        return None;
    }
    let (start, end) = parts[n - 1];
    proof {
        assert(components(path@)[n - 1] == ranges(parts@)[n - 1]);
    }
    let ghost last = component(path@, n - 1);
    assert(last.len() == end - start);
    if end - start == 1 && (x[start] == '/' || x[start] == '.') {
        assert(last =~= seq!['/'] || last =~= seq!['.']);
        return None;
    }
    if end - start == 2 && x[start] == '.' && x[start + 1] == '.' {
        assert(last =~= seq!['.', '.']);
        return None;
    }
    proof {
        if end - start == 1 {
            assert(last[0] == x@[start as int]);
        }
        if end - start == 2 {
            assert(last[0] == x@[start as int]);
            assert(last[1] == x@[start + 1]);
        }
    }
    Some(slice_text(&x, start, end))
}

/// `rest` inside `base`.
pub fn join(base: &str, rest: &str) -> (path: String)
    ensures
        path@ == joined(base@, rest@),
{
    let n: usize = rest.unicode_len();
    if n > 0 && rest.get_char(0) == '/' {
        return rest.to_owned();
    }
    let mut path = base.to_owned();
    let m: usize = base.unicode_len();
    if m > 0 && base.get_char(m - 1) != '/' {
        path.push('/');
    }
    path.append(rest);
    assert(path@ =~= joined(base@, rest@));
    path
}

// --- going down and back up --------------------------------------------------------

/// Where a path is cut at the end of a piece, the pieces before the cut stay the same.
proof fn lemma_piece_end_cut(s: Seq<char>, e: int, i: int)
    requires
        0 <= i <= e <= s.len(),
        e < s.len() ==> s[e] == '/',
    ensures
        piece_end(s, i) == piece_end(s.take(e), i),
        piece_end(s, i) <= e,
    decreases e - i,
{
    if i < e && s[i] != '/' {
        lemma_piece_end_cut(s, e, i + 1);
    }
}

/// Cutting off a tail that holds no name changes no component.
proof fn lemma_names_cut(s: Seq<char>, e: int, i: int)
    requires
        0 <= i <= e <= s.len(),
        e < s.len() ==> s[e] == '/',
        names_from(s, e).len() == 0,
    ensures
        names_from(s.take(e), i) == names_from(s, i),
    decreases e - i,
{
    let t = s.take(e);
    if i < e {
        assert(t[i] == s[i]);
        if s[i] == '/' {
            lemma_names_cut(s, e, i + 1);
        } else {
            lemma_piece_end(s, i);
            lemma_piece_end_cut(s, e, i);
            lemma_names_cut(s, e, piece_end(s, i));
        }
    } else {
        assert(names_from(t, i) =~= names_from(s, i));
    }
}

/// Behind the last name there is no other, and it ends where a piece ends.
proof fn lemma_last_name_ends(s: Seq<char>, i: int)
    requires
        0 <= i <= s.len(),
        names_from(s, i).len() > 0,
    ensures
        ({
            let e = names_from(s, i).last().1;
            &&& i <= e <= s.len()
            &&& names_from(s, e).len() == 0
            &&& e < s.len() ==> s[e] == '/'
        }),
    decreases s.len() - i,
{
    lemma_names_in_range(s, i);
    if s[i] == '/' {
        lemma_last_name_ends(s, i + 1);
    } else {
        lemma_piece_end(s, i);
        let end = piece_end(s, i);
        lemma_piece_end_stops(s, i);
        let rest = names_from(s, end);
        if rest.len() > 0 {
            lemma_last_name_ends(s, end);
            assert(names_from(s, i).last() == rest.last());
        }
    }
}

proof fn lemma_piece_end_stops(s: Seq<char>, i: int)
    requires
        0 <= i <= s.len(),
    ensures
        piece_end(s, i) < s.len() ==> s[piece_end(s, i)] == '/',
    decreases s.len() - i,
{
    if i < s.len() && s[i] != '/' {
        lemma_piece_end_stops(s, i + 1);
    }
}

/// A path without what stands behind its last component has the same components.
proof fn lemma_components_cut(s: Seq<char>)
    requires
        components(s).len() > 0,
    ensures
        components(s.take(components(s).last().1)) == components(s),
        components(s)[0].0 == 0,
{
    let e = components(s).last().1;
    lemma_components_in_range(s);
    if s[0] == '/' {
        let names = names_from(s, 1);
        if names.len() > 0 {
            assert(components(s).last() == names.last());
            lemma_last_name_ends(s, 1);
            lemma_names_cut(s, e, 1);
        } else {
            assert(components(s) =~= seq![(0int, 1int)]);
            assert(names_from(s.take(1), 1) =~= Seq::<(int, int)>::empty());
        }
        assert(s.take(e)[0] == '/');
        assert(components(s.take(e)) =~= components(s));
    } else {
        lemma_last_name_ends(s, 0);
        lemma_names_cut(s, e, 0);
        lemma_piece_end(s, 0);
        assert(s.take(e)[0] == s[0]);
    }
}

/// A name put behind a path: the components before it stay the same.
proof fn lemma_piece_end_joined(base: Seq<char>, path: Seq<char>, i: int)
    requires
        0 <= i <= base.len() <= path.len(),
        path.take(base.len() as int) == base,
        base.len() < path.len() && base.len() > 0 && base.last() != '/' ==> path[base.len() as int]
            == '/',
        i < base.len(),
        base[i] != '/',
    ensures
        piece_end(path, i) == piece_end(base, i),
    decreases base.len() - i,
{
    assert(path[i] == path.take(base.len() as int)[i]);
    if i + 1 < base.len() {
        assert(path[i + 1] == path.take(base.len() as int)[i + 1]);
        if base[i + 1] != '/' {
            lemma_piece_end_joined(base, path, i + 1);
        } else {
            assert(piece_end(path, i + 1) == piece_end(base, i + 1));
        }
    } else {
        assert(base.last() == base[i]);
        assert(piece_end(path, i + 1) == piece_end(base, i + 1));
    }
}

proof fn lemma_names_joined(base: Seq<char>, name: Seq<char>, i: int)
    requires
        is_plain_name(name),
        0 <= i <= base.len(),
    ensures
        names_from(joined(base, name), i) == names_from(base, i).push(
            (joined(base, name).len() - name.len(), joined(base, name).len() as int),
        ),
    decreases base.len() - i,
{
    let path = joined(base, name);
    let k = path.len() - name.len();
    assert(path.take(base.len() as int) =~= base);
    if i < base.len() {
        assert(path[i] == base[i]);
        if base[i] == '/' {
            lemma_names_joined(base, name, i + 1);
        } else {
            lemma_piece_end(base, i);
            lemma_piece_end_joined(base, path, i);
            lemma_names_joined(base, name, piece_end(base, i));
            assert(names_from(path, i) =~= names_from(base, i).push((k, path.len() as int)));
        }
    } else {
        assert(path.skip(k) =~= name);
        lemma_name_is_a_piece(path, name, k);
        assert(path[k] == name[0]);
        assert(names_from(path, path.len() as int) =~= Seq::<(int, int)>::empty());
        if name.len() == 1 {
            assert(name =~= seq![name[0]]);
        }
        assert(names_from(path, k) =~= seq![(k, path.len() as int)]);
        if i < k {
            assert(path[i] == '/');
        }
        assert(names_from(base, i) =~= Seq::<(int, int)>::empty());
        assert(names_from(path, i) =~= names_from(base, i).push((k, path.len() as int)));
    }
}

proof fn lemma_name_is_a_piece(path: Seq<char>, name: Seq<char>, i: int)
    requires
        0 <= path.len() - name.len() <= i <= path.len(),
        path.skip(path.len() - name.len()) == name,
        !name.contains('/'),
    ensures
        piece_end(path, i) == path.len(),
    decreases path.len() - i,
{
    if i < path.len() {
        let k = path.len() - name.len();
        assert(path[i] == path.skip(k)[i - k]);
        assert(name.contains(name[i - k]));
        lemma_name_is_a_piece(path, name, i + 1);
    }
}

/// A name that stands for itself in a directory.
pub open spec fn is_plain_name(name: Seq<char>) -> bool {
    &&& name.len() > 0
    &&& !name.contains('/')
    &&& name != seq!['.']
}

/// A name put behind a path is one more component, behind those of the path.
pub(crate) proof fn lemma_joined_components(base: Seq<char>, name: Seq<char>)
    requires
        is_plain_name(name),
    ensures
        ({
            let path = joined(base, name);
            &&& components(path) == components(base).push(
                (path.len() - name.len(), path.len() as int),
            )
            &&& path.skip(path.len() - name.len()) == name
            &&& share(path, base, components(base).len() as int)
        }),
{
    let path = joined(base, name);
    let k = path.len() - name.len();
    assert(name.contains(name[0]));
    assert(path.skip(k) =~= name);
    if base.len() > 0 && base[0] == '/' {
        lemma_names_joined(base, name, 1);
        assert(path[0] == '/');
    } else {
        lemma_names_joined(base, name, 0);
        if base.len() > 0 {
            assert(path[0] == base[0]);
        } else {
            assert(path[0] == name[0]);
        }
    }
    let parts = components(path);
    assert(parts =~= components(base).push((k, path.len() as int)));
    lemma_components_in_range(base);
    assert forall|j: int| 0 <= j < components(base).len() implies #[trigger] component(path, j)
        == component(base, j) by {
        assert(parts[j] == components(base)[j]);
        assert(component(path, j) =~= component(base, j));
    }
}

/// Going into a directory and back out ends where it started, and what was entered is
/// the last component.
pub proof fn law_parent_undoes_join(base: Seq<char>, name: Seq<char>)
    requires
        is_plain_name(name),
    ensures
        parent_of(joined(base, name)) matches Some(up) && same_path(up, base),
        name != seq!['.', '.'] ==> file_name_of(joined(base, name)) == Some(name),
{
    let path = joined(base, name);
    let k = path.len() - name.len();
    assert(name.contains(name[0]));
    assert(path.skip(k) =~= name);
    if base.len() > 0 && base[0] == '/' {
        lemma_names_joined(base, name, 1);
        assert(path[0] == '/');
    } else {
        lemma_names_joined(base, name, 0);
        if base.len() > 0 {
            assert(path[0] == base[0]);
        } else {
            assert(path[0] == name[0]);
        }
    }
    let parts = components(path);
    assert(parts =~= components(base).push((k, path.len() as int)));
    let n = parts.len() as int;
    assert(component(path, n - 1) =~= name);
    if components(base).len() > 0 {
        let e = components(base).last().1;
        lemma_components_in_range(base);
        lemma_components_cut(base);
        let up = path.subrange(parts[0].0, parts[n - 2].1);
        assert(up =~= base.take(e));
        assert forall|j: int| 0 <= j < components(base).len() implies #[trigger] component(up, j)
            == component(base, j) by {
            let part = components(base)[j];
            if j < components(base).len() - 1 {
                assert(part.1 <= components(base).last().0);
            }
            assert(up.subrange(part.0, part.1) =~= base.subrange(part.0, part.1));
        }
    } else {
        assert(components(Seq::<char>::empty()) =~= Seq::<(int, int)>::empty());
    }
    if name != seq!['.', '.'] {
        if name.len() == 1 {
            assert(name =~= seq![name[0]]);
        }
    }
}

} // verus!
