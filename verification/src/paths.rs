//! Byte-level path helpers: joining, component normalization with
//! traversal containment, and derived file locations. Paths are byte
//! strings with `/` as the separator; a component equal to `..` pops, a
//! component equal to `.` or an empty component is dropped.

use vstd::prelude::*;
use crate::bytes::{bytes_eq, copy_bytes};

verus! {

/// Whether a path is absolute.
pub open spec fn is_abs(p: Seq<u8>) -> bool {
    p.len() > 0 && p[0] == 47
}

/// The components of `p` from position `i` on, with `cur` the partial
/// component read so far: split on `/`, empty components and `.` dropped.
pub open spec fn split_acc(p: Seq<u8>, i: int, cur: Seq<u8>) -> Seq<Seq<u8>>
    decreases p.len() - i,
{
    if i < 0 || i >= p.len() {
        if cur.len() == 0 || cur =~= seq![46u8] {
            Seq::empty()
        } else {
            seq![cur]
        }
    } else if p[i] == 47 {
        if cur.len() == 0 || cur =~= seq![46u8] {
            split_acc(p, i + 1, Seq::empty())
        } else {
            seq![cur] + split_acc(p, i + 1, Seq::empty())
        }
    } else {
        split_acc(p, i + 1, cur.push(p[i]))
    }
}

/// The components of a path: split on `/`, empty components and `.`
/// dropped.
pub open spec fn split_components(p: Seq<u8>) -> Seq<Seq<u8>> {
    split_acc(p, 0, Seq::empty())
}

/// Folds components from `i` on into the stack `st`: `..` pops, popping
/// an empty stack fails, everything else is pushed.
pub open spec fn norm_acc(cs: Seq<Seq<u8>>, i: int, st: Seq<Seq<u8>>) -> Option<Seq<Seq<u8>>>
    decreases cs.len() - i,
{
    if i < 0 || i >= cs.len() {
        Some(st)
    } else if cs[i] =~= seq![46u8, 46u8] {
        if st.len() == 0 {
            None
        } else {
            norm_acc(cs, i + 1, st.drop_last())
        }
    } else {
        norm_acc(cs, i + 1, st.push(cs[i]))
    }
}

/// The normalized component stack of a component list, or nothing when a
/// `..` would climb out.
pub open spec fn normalized_components(cs: Seq<Seq<u8>>) -> Option<Seq<Seq<u8>>> {
    norm_acc(cs, 0, Seq::empty())
}

/// The bytes a component list renders to, `/`-separated.
pub open spec fn rendered(cs: Seq<Seq<u8>>) -> Seq<u8>
    decreases cs.len(),
{
    if cs.len() == 0 {
        Seq::empty()
    } else if cs.len() == 1 {
        cs[0]
    } else {
        cs[0] + seq![47u8] + rendered(cs.skip(1))
    }
}

/// A base joined with a path: an absolute path stands alone; otherwise
/// the two are joined with a single separator.
pub open spec fn joined(base: Seq<u8>, rel: Seq<u8>) -> Seq<u8> {
    if is_abs(rel) || base.len() == 0 {
        rel
    } else if base.last() == 47 {
        base + rel
    } else {
        base + seq![47u8] + rel
    }
}

/// `pre` is a component-wise prefix of `cs`.
pub open spec fn comps_prefix(pre: Seq<Seq<u8>>, cs: Seq<Seq<u8>>) -> bool {
    pre.len() <= cs.len() && forall|i: int| 0 <= i < pre.len() ==> (#[trigger] cs[i]) == pre[i]
}

/// What resolving `rel` against `base` yields: the joined path's
/// components normalized, provided no `..` climbs out and the result
/// still lies under the base's own components; nothing otherwise.
pub open spec fn resolved(base: Seq<u8>, rel: Seq<u8>) -> Option<Seq<u8>> {
    let j = joined(base, rel);
    match normalized_components(split_components(j)) {
        Option::None => Option::None,
        Option::Some(cs) => if is_abs(j) == is_abs(base) && comps_prefix(
            split_components(base),
            cs,
        ) {
            Option::Some(
                if is_abs(j) {
                    seq![47u8] + rendered(cs)
                } else {
                    rendered(cs)
                },
            )
        } else {
            Option::None
        },
    }
}

/// Index of the last occurrence of `b` in `p`, or -1 if there is none.
pub open spec fn last_pos(p: Seq<u8>, b: u8) -> int
    decreases p.len(),
{
    if p.len() == 0 {
        -1
    } else if p.last() == b {
        p.len() - 1
    } else {
        last_pos(p.drop_last(), b)
    }
}

/// The lyrics file location beside a music file: the extension of the
/// final path component replaced by `lrc`, or `.lrc` appended when the
/// component has no extension.
pub open spec fn lrc_path_of(p: Seq<u8>) -> Seq<u8> {
    let ns = last_pos(p, 47) + 1;
    let d = last_pos(p.subrange(ns, p.len() as int), 46);
    if d >= 1 {
        p.subrange(0, ns + d) + seq![46u8, 108u8, 114u8, 99u8]
    } else {
        p + seq![46u8, 108u8, 114u8, 99u8]
    }
}

/// Finds the last occurrence of a byte in a slice.
fn find_last_byte(p: &[u8], b: u8) -> (r: Option<usize>)
    ensures
        match r {
            Some(d) => last_pos(p@, b) == d && d < p@.len(),
            None => last_pos(p@, b) == -1,
        },
{
    let mut k: usize = p.len();
    proof {
        assert(p@.subrange(0, p@.len() as int) =~= p@);
    }
    while k > 0
        invariant
            k <= p@.len(),
            last_pos(p@, b) == last_pos(p@.subrange(0, k as int), b),
        decreases k,
    {
        if p[k - 1] == b {
            proof {
                assert(p@.subrange(0, k as int).last() == p@[k - 1]);
            }
            return Some(k - 1);
        }
        proof {
            assert(p@.subrange(0, k as int).drop_last() =~= p@.subrange(0, k - 1));
        }
        k = k - 1;
    }
    proof {
        assert(p@.subrange(0, 0) =~= Seq::<u8>::empty());
    }
    None
}

/// The lyrics file location for a music file, as `lrc_path_of` derives
/// it.
pub fn get_lrc_path(music_path: &Vec<u8>) -> (r: Vec<u8>)
    ensures
        r@ == lrc_path_of(music_path@),
{
    let n = music_path.len();
    let ns: usize = match find_last_byte(music_path.as_slice(), 47) {
        Some(s) => if s < n {
            s + 1
        } else {
            n
        },
        None => 0,
    };
    let name = vstd::slice::slice_subrange(music_path.as_slice(), ns, music_path.len());
    let cut: usize = match find_last_byte(name, 46) {
        Some(d) => if d >= 1 {
            ns + d
        } else {
            music_path.len()
        },
        None => music_path.len(),
    };
    let mut out: Vec<u8> = Vec::new();
    let mut i: usize = 0;
    while i < cut
        invariant
            cut <= music_path@.len(),
            i <= cut,
            out@ == music_path@.subrange(0, i as int),
        decreases cut - i,
    {
        out.push(music_path[i]);
        proof {
            assert(music_path@.subrange(0, i + 1) =~= music_path@.subrange(0, i as int).push(
                music_path@[i as int],
            ));
        }
        i = i + 1;
    }
    out.push(46);
    out.push(108);
    out.push(114);
    out.push(99);
    proof {
        if cut == music_path@.len() {
            assert(music_path@.subrange(0, cut as int) =~= music_path@);
        }
        assert(out@ =~= music_path@.subrange(0, cut as int) + seq![46u8, 108u8, 114u8, 99u8]);
    }
    out
}

/// The location of the plugin state file inside a plugin directory:
/// the directory joined with `plugin_state.json`.
pub open spec fn state_file_of(dir: Seq<u8>) -> Seq<u8> {
    joined(
        dir,
        seq![
            112u8, 108u8, 117u8, 103u8, 105u8, 110u8, 95u8, 115u8, 116u8, 97u8, 116u8, 101u8,
            46u8, 106u8, 115u8, 111u8, 110u8,
        ],
    )
}

/// The plugin state file's location inside a plugin directory, as
/// `state_file_of` derives it.
pub fn get_state_file_path(plugin_dir: &Vec<u8>) -> (r: Vec<u8>)
    ensures
        r@ == state_file_of(plugin_dir@),
{
    let mut out: Vec<u8>;
    if plugin_dir.len() == 0 {
        out = Vec::new();
    } else if plugin_dir[plugin_dir.len() - 1] == 47 {
        out = copy_bytes(plugin_dir);
    } else {
        out = copy_bytes(plugin_dir);
        out.push(47);
    }
    let ghost head = out@;
    out.push(112);
    out.push(108);
    out.push(117);
    out.push(103);
    out.push(105);
    out.push(110);
    out.push(95);
    out.push(115);
    out.push(116);
    out.push(97);
    out.push(116);
    out.push(101);
    out.push(46);
    out.push(106);
    out.push(115);
    out.push(111);
    out.push(110);
    proof {
        assert(out@ =~= head + seq![
            112u8, 108u8, 117u8, 103u8, 105u8, 110u8, 95u8, 115u8, 116u8, 97u8, 116u8, 101u8,
            46u8, 106u8, 115u8, 111u8, 110u8,
        ]);
        if plugin_dir@.len() > 0 && plugin_dir@.last() != 47 {
            assert(head =~= plugin_dir@ + seq![47u8]);
        }
        assert(out@ =~= state_file_of(plugin_dir@));
    }
    out
}

/// Splits a path into its components, as `split_components` reads it.
fn tokenize(p: &Vec<u8>) -> (r: Vec<Vec<u8>>)
    ensures
        r.deep_view() == split_components(p@),
{
    let mut r: Vec<Vec<u8>> = Vec::new();
    let mut cur: Vec<u8> = Vec::new();
    proof {
        assert(r.deep_view() =~~= Seq::<Seq<u8>>::empty());
        assert(Seq::<Seq<u8>>::empty() + split_acc(p@, 0, Seq::<u8>::empty()) =~~= split_acc(
            p@,
            0,
            Seq::<u8>::empty(),
        ));
    }
    let mut i: usize = 0;
    while i < p.len()
        invariant
            i <= p@.len(),
            split_components(p@) == r.deep_view() + split_acc(p@, i as int, cur@),
        decreases p@.len() - i,
    {
        let b = p[i];
        if b == 47 {
            if cur.len() > 0 && !(cur.len() == 1 && cur[0] == 46) {
                let done = cur;
                cur = Vec::new();
                let ghost old_r = r.deep_view();
                r.push(done);
                proof {
                    assert(r.deep_view() =~~= old_r.push(done@));
                    assert(old_r.push(done@) + split_acc(p@, i + 1, Seq::empty()) =~= old_r + (
                    seq![done@] + split_acc(p@, i + 1, Seq::empty())));
                }
            } else {
                proof {
                    if cur@.len() == 1 && cur@[0] == 46 {
                        assert(cur@ =~= seq![46u8]);
                    }
                }
                cur = Vec::new();
            }
        } else {
            cur.push(b);
        }
        i = i + 1;
    }
    if cur.len() > 0 && !(cur.len() == 1 && cur[0] == 46) {
        let ghost old_r = r.deep_view();
        let ghost cv = cur@;
        r.push(cur);
        proof {
            assert(r.deep_view() =~~= old_r.push(cv));
            assert(old_r.push(cv) =~= old_r + seq![cv]);
        }
    } else {
        proof {
            if cur@.len() == 1 && cur@[0] == 46 {
                assert(cur@ =~= seq![46u8]);
            }
            assert(r.deep_view() + Seq::<Seq<u8>>::empty() =~= r.deep_view());
        }
    }
    r
}

/// Normalizes a component list into a stack, failing when a `..` would
/// climb out, as `normalized_components` reads it.
fn normalize(cs: Vec<Vec<u8>>) -> (r: Option<Vec<Vec<u8>>>)
    ensures
        match r {
            Some(st) => normalized_components(cs.deep_view()) == Some(st.deep_view()),
            None => normalized_components(cs.deep_view()) is None,
        },
{
    let ghost cv = cs.deep_view();
    let mut st: Vec<Vec<u8>> = Vec::new();
    proof {
        assert(st.deep_view() =~~= Seq::<Seq<u8>>::empty());
    }
    let mut i: usize = 0;
    while i < cs.len()
        invariant
            cv == cs.deep_view(),
            i <= cv.len(),
            normalized_components(cv) == norm_acc(cv, i as int, st.deep_view()),
        decreases cv.len() - i,
    {
        let c = &cs[i];
        proof {
            assert(cs.deep_view()[i as int] =~~= cs@[i as int]@);
        }
        if c.len() == 2 && c[0] == 46 && c[1] == 46 {
            proof {
                assert(cv[i as int] =~= seq![46u8, 46u8]);
            }
            if st.len() == 0 {
                return None;
            }
            let ghost old_st = st.deep_view();
            let _ = st.pop();
            proof {
                assert(st.deep_view() =~~= old_st.drop_last());
            }
        } else {
            proof {
                assert(!(cv[i as int] =~= seq![46u8, 46u8]));
            }
            let ghost old_st = st.deep_view();
            let copy = copy_bytes(&cs[i]);
            st.push(copy);
            proof {
                assert(st.deep_view() =~~= old_st.push(cv[i as int]));
            }
        }
        i = i + 1;
    }
    Some(st)
}

/// Renders a component stack to bytes, `/`-separated, with a leading
/// separator when absolute.
fn render(abs: bool, st: &Vec<Vec<u8>>) -> (r: Vec<u8>)
    ensures
        abs ==> r@ == seq![47u8] + rendered(st.deep_view()),
        !abs ==> r@ == rendered(st.deep_view()),
{
    let mut out: Vec<u8> = Vec::new();
    if abs {
        out.push(47);
    }
    let ghost lead: Seq<u8> = if abs {
        seq![47u8]
    } else {
        Seq::empty()
    };
    proof {
        assert(out@ =~= lead);
        assert(out@ =~= lead + rendered(st.deep_view().subrange(0, 0)));
    }
    let mut i: usize = 0;
    while i < st.len()
        invariant
            i <= st@.len(),
            st@.len() == st.deep_view().len(),
            out@ == lead + rendered(st.deep_view().subrange(0, i as int)),
        decreases st@.len() - i,
    {
        if i > 0 {
            out.push(47);
        }
        let ghost before = out@;
        let comp = &st[i];
        proof {
            assert(st.deep_view()[i as int] =~~= st@[i as int]@);
        }
        let mut b: usize = 0;
        while b < comp.len()
            invariant
                b <= comp@.len(),
                out@ == before + comp@.subrange(0, b as int),
            decreases comp@.len() - b,
        {
            out.push(comp[b]);
            proof {
                assert(before + comp@.subrange(0, b + 1) =~= (before + comp@.subrange(
                    0,
                    b as int,
                )).push(comp@[b as int]));
            }
            b = b + 1;
        }
        proof {
            assert(comp@.subrange(0, comp@.len() as int) =~= comp@);
            lemma_rendered_snoc(st.deep_view(), i as int);
            assert(out@ =~= lead + rendered(st.deep_view().subrange(0, i + 1)));
        }
        i = i + 1;
    }
    proof {
        assert(st.deep_view().subrange(0, st.deep_view().len() as int) =~= st.deep_view());
    }
    out
}

/// Rendering one more component appends a separator (after the first)
/// and the component's bytes.
proof fn lemma_rendered_snoc(cs: Seq<Seq<u8>>, i: int)
    requires
        0 <= i < cs.len(),
    ensures
        i == 0 ==> rendered(cs.subrange(0, 1)) =~= cs[0],
        i > 0 ==> rendered(cs.subrange(0, i + 1)) =~= rendered(cs.subrange(0, i)) + seq![47u8]
            + cs[i],
    decreases i,
{
    if i == 0 {
        assert(cs.subrange(0, 1).len() == 1);
        assert(cs.subrange(0, 1)[0] == cs[0]);
    } else {
        lemma_rendered_snoc_general(cs.subrange(0, i + 1));
        assert(cs.subrange(0, i + 1).drop_last() =~= cs.subrange(0, i));
        assert(cs.subrange(0, i + 1).last() == cs[i]);
    }
}

/// For a list of at least two components, rendering equals rendering the
/// front and appending the last behind a separator.
proof fn lemma_rendered_snoc_general(cs: Seq<Seq<u8>>)
    requires
        cs.len() >= 2,
    ensures
        rendered(cs) =~= rendered(cs.drop_last()) + seq![47u8] + cs.last(),
    decreases cs.len(),
{
    if cs.len() == 2 {
        assert(cs.skip(1) =~= seq![cs[1]]);
        assert(rendered(cs.skip(1)) == cs[1]);
        assert(cs.drop_last() =~= seq![cs[0]]);
    } else {
        lemma_rendered_snoc_general(cs.skip(1));
        assert(cs.skip(1).drop_last() =~= cs.drop_last().skip(1));
        assert(cs.skip(1).last() == cs.last());
        assert(rendered(cs.drop_last()) =~= cs[0] + seq![47u8] + rendered(cs.drop_last().skip(1)));
    }
}

/// Resolves a path against a base directory and refuses directory
/// traversal: the joined path is normalized component by component, a
/// `..` that would climb out of the path fails, and a result that does
/// not lie under the base directory's components fails. Purely textual:
/// symbolic links are not followed, so a caller that must contain
/// link-based escapes resolves links itself before trusting the result.
pub fn resolve_path(base_dir: &Vec<u8>, unsafe_path: &Vec<u8>) -> (r: Result<Vec<u8>, String>)
    ensures
        match r {
            Result::Ok(p) => resolved(base_dir@, unsafe_path@) == Some(p@),
            Result::Err(_) => resolved(base_dir@, unsafe_path@) is None,
        },
{
    // Join the base directory with the unresolved path.
    let mut full: Vec<u8>;
    if (unsafe_path.len() > 0 && unsafe_path[0] == 47) || base_dir.len() == 0 {
        full = copy_bytes(unsafe_path);
    } else if base_dir[base_dir.len() - 1] == 47 {
        full = copy_bytes(base_dir);
        let mut k: usize = 0;
        while k < unsafe_path.len()
            invariant
                k <= unsafe_path@.len(),
                full@ == base_dir@ + unsafe_path@.subrange(0, k as int),
            decreases unsafe_path@.len() - k,
        {
            full.push(unsafe_path[k]);
            proof {
                assert(base_dir@ + unsafe_path@.subrange(0, k + 1) =~= (base_dir@
                    + unsafe_path@.subrange(0, k as int)).push(unsafe_path@[k as int]));
            }
            k = k + 1;
        }
        proof {
            assert(unsafe_path@.subrange(0, unsafe_path@.len() as int) =~= unsafe_path@);
        }
    } else {
        full = copy_bytes(base_dir);
        full.push(47);
        proof {
            assert(full@ =~= base_dir@ + seq![47u8]);
        }
        let mut k: usize = 0;
        while k < unsafe_path.len()
            invariant
                k <= unsafe_path@.len(),
                full@ == base_dir@ + seq![47u8] + unsafe_path@.subrange(0, k as int),
            decreases unsafe_path@.len() - k,
        {
            full.push(unsafe_path[k]);
            proof {
                assert(base_dir@ + seq![47u8] + unsafe_path@.subrange(0, k + 1) =~= (base_dir@
                    + seq![47u8] + unsafe_path@.subrange(0, k as int)).push(
                    unsafe_path@[k as int],
                ));
            }
            k = k + 1;
        }
        proof {
            assert(unsafe_path@.subrange(0, unsafe_path@.len() as int) =~= unsafe_path@);
        }
    }
    proof {
        assert(full@ == joined(base_dir@, unsafe_path@));
    }
    let abs = full.len() > 0 && full[0] == 47;
    let comps = tokenize(&full);
    let st = match normalize(comps) {
        Some(st) => st,
        None => {
            return Err(String::from_str("Path traversal detected (out of bounds)"));
        },
    };
    // The result must stay under the base directory.
    let base_comps = tokenize(base_dir);
    let base_abs = base_dir.len() > 0 && base_dir[0] == 47;
    if abs != base_abs {
        return Err(String::from_str("Path traversal detected"));
    }
    if base_comps.len() > st.len() {
        proof {
            assert(!comps_prefix(split_components(base_dir@), st.deep_view()));
        }
        return Err(String::from_str("Path traversal detected"));
    }
    let mut i: usize = 0;
    while i < base_comps.len()
        invariant
            i <= base_comps@.len(),
            base_comps@.len() <= st@.len(),
            base_comps.deep_view() == split_components(base_dir@),
            normalized_components(split_components(joined(base_dir@, unsafe_path@))) == Some(
                st.deep_view(),
            ),
            st@.len() == st.deep_view().len(),
            base_comps@.len() == base_comps.deep_view().len(),
            forall|m: int|
                0 <= m < i ==> (#[trigger] st.deep_view()[m]) == base_comps.deep_view()[m],
        decreases base_comps@.len() - i,
    {
        proof {
            assert(st.deep_view()[i as int] =~~= st@[i as int]@);
            assert(base_comps.deep_view()[i as int] =~~= base_comps@[i as int]@);
        }
        if !bytes_eq(&st[i], &base_comps[i]) {
            proof {
                assert(!comps_prefix(split_components(base_dir@), st.deep_view()));
            }
            return Err(String::from_str("Path traversal detected"));
        }
        i = i + 1;
    }
    proof {
        assert(comps_prefix(split_components(base_dir@), st.deep_view()));
    }
    Ok(render(abs, &st))
}

} // verus!
