//! The parts of a path that the library reads: its file name, extension and
//! stem, following the rules of `std::path::Path` for `/`-separated paths.
use vstd::prelude::*;

verus! {

/// The position of the last `c` in `s`, or `-1` when `s` holds none.
pub open spec fn last_index(s: Seq<char>, c: char) -> int
    decreases s.len(),
{
    if s.len() == 0 {
        -1
    } else if s.last() == c {
        s.len() - 1
    } else {
        last_index(s.drop_last(), c)
    }
}

/// `last_index` points at a `c` (or is `-1`) and no `c` follows it.
pub proof fn lemma_last_index(s: Seq<char>, c: char)
    ensures
        -1 <= last_index(s, c) < s.len(),
        last_index(s, c) >= 0 ==> s[last_index(s, c)] == c,
        forall|k: int| last_index(s, c) < k < s.len() ==> s[k] != c,
    decreases s.len(),
{
    if s.len() > 0 && s.last() != c {
        lemma_last_index(s.drop_last(), c);
        assert forall|k: int| last_index(s, c) < k < s.len() implies s[k] != c by {
            if k < s.len() - 1 {
                assert(s.drop_last()[k] == s[k]);
            }
        }
    }
}

/// The last component of a path, when it is a normal component
/// (`Path::file_name`): empty and `.` components are skipped, and a path
/// that ends in `..`, or has no normal component at its end, has none.
pub open spec fn file_name(p: Seq<char>) -> Option<Seq<char>>
    decreases p.len(),
{
    let k = last_index(p, '/');
    let seg = p.subrange(k + 1, p.len() as int);
    if seg.len() == 0 || seg == seq!['.'] {
        if k < 0 {
            None
        } else {
            proof {
                lemma_last_index(p, '/');
            }
            file_name(p.subrange(0, k))
        }
    } else if seg == seq!['.', '.'] {
        None
    } else {
        Some(seg)
    }
}

/// The extension of a file name: what follows its last `.`, when that dot
/// is not the name's first character (`Path::extension`).
pub open spec fn name_extension(name: Seq<char>) -> Option<Seq<char>> {
    let d = last_index(name, '.');
    if d <= 0 {
        None
    } else {
        Some(name.subrange(d + 1, name.len() as int))
    }
}

/// The stem of a file name: what precedes its last `.`, or the whole name
/// when it has no extension (`Path::file_stem`).
pub open spec fn name_stem(name: Seq<char>) -> Seq<char> {
    let d = last_index(name, '.');
    if d <= 0 {
        name
    } else {
        name.subrange(0, d)
    }
}

/// The extension of the path's file name.
pub open spec fn file_extension(p: Seq<char>) -> Option<Seq<char>> {
    match file_name(p) {
        Some(name) => name_extension(name),
        None => None,
    }
}

/// The stem of the path's file name.
pub open spec fn file_stem(p: Seq<char>) -> Option<Seq<char>> {
    match file_name(p) {
        Some(name) => Some(name_stem(name)),
        None => None,
    }
}

/// The position of the last `c` in `v[from..to]`, relative to `from`.
fn last_index_in(v: &Vec<char>, from: usize, to: usize, c: char) -> (r: Option<usize>)
    requires
        from <= to <= v@.len(),
    ensures
        match r {
            Some(k) => k == last_index(v@.subrange(from as int, to as int), c) && k < to - from,
            None => last_index(v@.subrange(from as int, to as int), c) == -1,
        },
{
    let mut j: usize = to;
    while j > from
        invariant
            from <= j <= to <= v@.len(),
            last_index(v@.subrange(from as int, to as int), c) == last_index(
                v@.subrange(from as int, j as int),
                c,
            ),
        decreases j,
    {
        if v[j - 1] == c {
            return Some(j - 1 - from);
        }
        assert(v@.subrange(from as int, j as int).drop_last() =~= v@.subrange(
            from as int,
            j - 1,
        ));
        j -= 1;
    }
    None
}

/// Where the file name of the path `v` lies in `v`, if it has one.
pub fn file_name_range(v: &Vec<char>) -> (r: Option<(usize, usize)>)
    ensures
        match r {
            Some((a, b)) => a <= b <= v@.len() && file_name(v@) == Some(
                v@.subrange(a as int, b as int),
            ),
            None => file_name(v@) is None,
        },
{
    let mut end: usize = v.len();
    assert(v@.subrange(0, end as int) =~= v@);
    loop
        invariant
            end <= v@.len(),
            file_name(v@) == file_name(v@.subrange(0, end as int)),
        decreases end,
    {
        let ghost p = v@.subrange(0, end as int);
        let k = last_index_in(v, 0, end, '/');
        let start: usize = match k {
            Some(k) => k + 1,
            None => 0,
        };
        proof {
            lemma_last_index(p, '/');
            assert(p.subrange(last_index(p, '/') + 1, p.len() as int) =~= v@.subrange(
                start as int,
                end as int,
            ));
        }
        if start == end || (end - start == 1 && v[start] == '.') {
            if end - start == 1 {
                assert(v@.subrange(start as int, end as int) =~= seq!['.']);
            }
            match k {
                None => {
                    return None;
                },
                Some(k) => {
                    assert(p.subrange(0, k as int) =~= v@.subrange(0, k as int));
                    end = k;
                },
            }
        } else if end - start == 2 && v[start] == '.' && v[start + 1] == '.' {
            assert(v@.subrange(start as int, end as int) =~= seq!['.', '.']);
            return None;
        } else {
            proof {
                let seg = v@.subrange(start as int, end as int);
                if seg.len() == 1 {
                    assert(seg[0] == v@[start as int]);
                    assert(seg != seq!['.']);
                }
                if seg.len() == 2 {
                    assert(seg[0] == v@[start as int]);
                    assert(seg[1] == v@[start + 1]);
                    assert(seg != seq!['.', '.']);
                }
            }
            return Some((start, end));
        }
    }
}

/// Where the extension of the file name `v[a..b]` lies in `v`, if it has one.
pub fn extension_range(v: &Vec<char>, a: usize, b: usize) -> (r: Option<usize>)
    requires
        a <= b <= v@.len(),
    ensures
        match r {
            Some(e) => a < e <= b && name_extension(v@.subrange(a as int, b as int)) == Some(
                v@.subrange(e as int, b as int),
            ),
            None => name_extension(v@.subrange(a as int, b as int)) is None,
        },
{
    let d = last_index_in(v, a, b, '.');
    match d {
        Some(d) => {
            if d == 0 {
                None
            } else {
                assert(v@.subrange(a as int, b as int).subrange(d + 1, b - a) =~= v@.subrange(
                    a + d + 1,
                    b as int,
                ));
                Some(a + d + 1)
            }
        },
        None => None,
    }
}

/// Where the stem of the file name `v[a..b]` ends in `v`.
pub fn stem_end(v: &Vec<char>, a: usize, b: usize) -> (r: usize)
    requires
        a <= b <= v@.len(),
    ensures
        a <= r <= b,
        name_stem(v@.subrange(a as int, b as int)) == v@.subrange(a as int, r as int),
{
    let d = last_index_in(v, a, b, '.');
    match d {
        Some(d) => {
            if d == 0 {
                b
            } else {
                assert(v@.subrange(a as int, b as int).subrange(0, d as int) =~= v@.subrange(
                    a as int,
                    a + d,
                ));
                a + d
            }
        },
        None => b,
    }
}

/// The position of the first `c` in `s`, or `-1` when `s` holds none.
pub open spec fn first_index(s: Seq<char>, c: char) -> int
    decreases s.len(),
{
    if s.len() == 0 {
        -1
    } else if s[0] == c {
        0
    } else {
        let r = first_index(s.drop_first(), c);
        if r < 0 {
            -1
        } else {
            r + 1
        }
    }
}

/// `first_index` points at a `c` (or is `-1`) and no `c` precedes it.
pub proof fn lemma_first_index(s: Seq<char>, c: char)
    ensures
        -1 <= first_index(s, c) < s.len(),
        first_index(s, c) >= 0 ==> s[first_index(s, c)] == c,
        forall|k: int| 0 <= k < s.len() && (first_index(s, c) < 0 || k < first_index(s, c)) ==> s[k] != c,
    decreases s.len(),
{
    if s.len() > 0 && s[0] != c {
        lemma_first_index(s.drop_first(), c);
        assert forall|k: int| 0 <= k < s.len() && (first_index(s, c) < 0 || k < first_index(s, c)) implies s[k] != c by {
            if k > 0 {
                assert(s.drop_first()[k - 1] == s[k]);
            }
        }
    }
}

/// Whether a component counts in a path: empty components (from repeated
/// or trailing `/`) and `.` components do not.
pub open spec fn counts(component: Seq<char>) -> bool {
    component.len() > 0 && component != seq!['.']
}

/// The components of a path that count, from first to last: the pieces
/// between `/` separators, without empty and `.` pieces.
pub open spec fn components(p: Seq<char>) -> Seq<Seq<char>>
    decreases p.len(),
{
    let k = first_index(p, '/');
    if k < 0 {
        if counts(p) {
            seq![p]
        } else {
            Seq::empty()
        }
    } else {
        proof {
            lemma_first_index(p, '/');
        }
        let head = p.subrange(0, k);
        let rest = components(p.subrange(k + 1, p.len() as int));
        if counts(head) {
            seq![head] + rest
        } else {
            rest
        }
    }
}

/// Whether the path starts at the root.
pub open spec fn is_rooted(p: Seq<char>) -> bool {
    p.len() > 0 && p[0] == '/'
}

/// Whether a relative path starts with an explicit `.` component.
pub open spec fn starts_at_cur_dir(p: Seq<char>) -> bool {
    !is_rooted(p) && p.len() > 0 && p[0] == '.' && (p.len() == 1 || p[1] == '/')
}

/// Whether two paths name the same path as `Path` compares them: both or
/// neither start at the root, both or neither start with `.`, and their
/// counting components agree.
pub open spec fn same_path(a: Seq<char>, b: Seq<char>) -> bool {
    &&& is_rooted(a) == is_rooted(b)
    &&& starts_at_cur_dir(a) == starts_at_cur_dir(b)
    &&& components(a) == components(b)
}

/// The position of the first `c` in `v[from..]`, as a position in `v`.
fn first_index_from(v: &Vec<char>, from: usize, c: char) -> (r: Option<usize>)
    requires
        from <= v@.len(),
    ensures
        match r {
            Some(k) => from <= k < v@.len() && k - from == first_index(
                v@.subrange(from as int, v@.len() as int),
                c,
            ),
            None => first_index(v@.subrange(from as int, v@.len() as int), c) == -1,
        },
{
    let n = v.len();
    let mut j: usize = from;
    while j < n
        invariant
            n == v@.len(),
            from <= j <= n,
            first_index(v@.subrange(from as int, n as int), c) == (if first_index(
                v@.subrange(j as int, n as int),
                c,
            ) < 0 {
                -1
            } else {
                first_index(v@.subrange(j as int, n as int), c) + (j - from)
            }),
        decreases n - j,
    {
        if v[j] == c {
            return Some(j);
        }
        assert(v@.subrange(j as int, n as int).drop_first() =~= v@.subrange(j + 1, n as int));
        j += 1;
    }
    None
}

/// The string of the characters `v[a..b]`.
fn piece(v: &Vec<char>, a: usize, b: usize) -> (s: String)
    requires
        a <= b <= v@.len(),
    ensures
        s@ == v@.subrange(a as int, b as int),
{
    crate::text::string_of(v, a, b)
}

/// The counting components of the path `v`, in order.
pub fn components_of(v: &Vec<char>) -> (r: Vec<String>)
    ensures
        r.deep_view() == components(v@),
{
    let n = v.len();
    let mut r: Vec<String> = Vec::new();
    let mut i: usize = 0;
    assert(v@.subrange(0, n as int) =~= v@);
    loop
        invariant
            n == v@.len(),
            i <= n,
            r.deep_view() + components(v@.subrange(i as int, n as int)) == components(v@),
        decreases n - i,
    {
        let ghost rest = v@.subrange(i as int, n as int);
        match first_index_from(v, i, '/') {
            None => {
                let last = piece(v, i, n);
                let ghost before = r.deep_view();
                if n > i && !(n - i == 1 && v[i] == '.') {
                    proof {
                        if last@.len() == 1 {
                            assert(last@[0] == v@[i as int]);
                            assert(last@ != seq!['.']);
                        }
                    }
                    r.push(last);
                    assert(r.deep_view() =~= before + seq![last@]);
                } else {
                    if n - i == 1 {
                        assert(last@ =~= seq!['.']);
                    }
                }
                assert(r.deep_view() =~= components(v@));
                return r;
            },
            Some(k) => {
                proof {
                    lemma_first_index(rest, '/');
                    assert(rest.subrange(0, k - i) =~= v@.subrange(i as int, k as int));
                    assert(rest.subrange(k - i + 1, rest.len() as int) =~= v@.subrange(
                        k + 1,
                        n as int,
                    ));
                }
                let head = piece(v, i, k);
                let ghost before = r.deep_view();
                if k > i && !(k - i == 1 && v[i] == '.') {
                    proof {
                        if head@.len() == 1 {
                            assert(head@[0] == v@[i as int]);
                            assert(head@ != seq!['.']);
                        }
                    }
                    r.push(head);
                    assert(r.deep_view() =~= before + seq![head@]);
                    assert(before + seq![head@] + components(v@.subrange(k + 1, n as int))
                        =~= before + (seq![head@] + components(v@.subrange(k + 1, n as int))));
                } else {
                    if k - i == 1 {
                        assert(head@ =~= seq!['.']);
                    }
                }
                i = k + 1;
            },
        }
    }
}

/// Whether the two paths name the same path.
pub fn same_path_str(a: &str, b: &str) -> (r: bool)
    ensures
        r == same_path(a@, b@),
{
    let va = crate::text::chars_of(a);
    let vb = crate::text::chars_of(b);
    let rooted_a = va.len() > 0 && va[0] == '/';
    let rooted_b = vb.len() > 0 && vb[0] == '/';
    if rooted_a != rooted_b {
        return false;
    }
    let cur_a = !rooted_a && va.len() > 0 && va[0] == '.' && (va.len() == 1 || va[1] == '/');
    let cur_b = !rooted_b && vb.len() > 0 && vb[0] == '.' && (vb.len() == 1 || vb[1] == '/');
    if cur_a != cur_b {
        return false;
    }
    let ca = components_of(&va);
    let cb = components_of(&vb);
    if ca.len() != cb.len() {
        assert(ca.deep_view().len() != cb.deep_view().len());
        return false;
    }
    let mut k: usize = 0;
    while k < ca.len()
        invariant
            ca.deep_view() == components(a@),
            cb.deep_view() == components(b@),
            ca@.len() == cb@.len(),
            k <= ca@.len(),
            forall|m: int| 0 <= m < k ==> ca@[m]@ == cb@[m]@,
        decreases ca@.len() - k,
    {
        if !crate::text::same_text(ca[k].as_str(), cb[k].as_str()) {
            assert(ca.deep_view()[k as int] != cb.deep_view()[k as int]);
            assert(ca.deep_view() != cb.deep_view());
            return false;
        }
        k += 1;
    }
    assert(ca.deep_view() =~= cb.deep_view());
    true
}

/// A file name splits at its last dot into stem and extension: with an
/// extension, the name is the stem, a dot and the extension, the stem is
/// not empty and the extension holds no dot; without one, the stem is the
/// whole name.
pub proof fn lemma_stem_and_extension_make_the_name(name: Seq<char>)
    ensures
        name_extension(name) matches Some(ext) ==> name == name_stem(name) + seq!['.'] + ext,
        name_extension(name) matches Some(ext) ==> !ext.contains('.') && name_stem(name).len() > 0,
        name_extension(name) is None ==> name_stem(name) == name,
{
    lemma_last_index(name, '.');
    let d = last_index(name, '.');
    if d > 0 {
        let ext = name.subrange(d + 1, name.len() as int);
        assert(name =~= name.subrange(0, d) + seq!['.'] + ext);
        assert forall|k: int| 0 <= k < ext.len() implies ext[k] != '.' by {
            assert(ext[k] == name[d + 1 + k]);
        }
    }
}

/// The file name of a path is a non-empty piece of the path that holds no
/// `/` and is neither `.` nor `..`; after it the path holds only `/` and
/// `.` components.
pub proof fn lemma_file_name_is_last_component(p: Seq<char>)
    ensures
        file_name(p) matches Some(name) ==> {
            &&& name.len() > 0
            &&& !name.contains('/')
            &&& name != seq!['.']
            &&& name != seq!['.', '.']
            &&& crate::text::contains_seq(p, name)
        },
    decreases p.len(),
{
    lemma_last_index(p, '/');
    let k = last_index(p, '/');
    let seg = p.subrange(k + 1, p.len() as int);
    if seg.len() == 0 || seg == seq!['.'] {
        if k >= 0 {
            let q = p.subrange(0, k);
            lemma_file_name_is_last_component(q);
            if file_name(q) is Some {
                let name = file_name(q)->0;
                let i = choose|i: int| crate::text::occurs_at(q, name, i);
                assert(p.subrange(i, i + name.len()) =~= q.subrange(i, i + name.len()));
                assert(crate::text::occurs_at(p, name, i));
            }
        }
    } else if seg != seq!['.', '.'] {
        assert forall|m: int| 0 <= m < seg.len() implies seg[m] != '/' by {
            assert(seg[m] == p[k + 1 + m]);
        }
        assert(p.subrange(k + 1, k + 1 + seg.len()) == seg);
        assert(crate::text::occurs_at(p, seg, k + 1));
    }
}

/// Comparing paths is an equivalence: every path is the same as itself,
/// the comparison goes both ways, and it chains.
pub proof fn lemma_same_path_is_an_equivalence(a: Seq<char>, b: Seq<char>, c: Seq<char>)
    ensures
        same_path(a, a),
        same_path(a, b) == same_path(b, a),
        same_path(a, b) && same_path(b, c) ==> same_path(a, c),
{
}

} // verus!
