//! POSIX paths as strings, normalized the way the path type of the Rust
//! standard library of the time normalized them: empty and `.` components
//! are dropped, `..` cancels the component before it, and a trailing `/` goes.

use vstd::prelude::*;

verus! {

/// A path is absolute when it starts at the root directory.
pub open spec fn is_absolute(p: Seq<char>) -> bool {
    p.len() > 0 && p[0] == '/'
}

/// The part of `p` after its leading `/`, for an absolute path; all of `p`
/// otherwise.
pub open spec fn path_body(p: Seq<char>) -> Seq<char> {
    if is_absolute(p) {
        p.skip(1)
    } else {
        p
    }
}

/// The pieces of `s` between its `/`s: one more piece than `s` has `/`s.
pub open spec fn split_path(s: Seq<char>) -> Seq<Seq<char>>
    decreases s.len(),
{
    if s.len() == 0 {
        seq![Seq::<char>::empty()]
    } else {
        let prev = split_path(s.drop_last());
        if s.last() == '/' {
            prev.push(Seq::<char>::empty())
        } else {
            prev.update(prev.len() - 1, prev.last().push(s.last()))
        }
    }
}

/// Where normalization stands after some of a path's pieces: the components
/// kept, how many of them (all at the front) are `..`, and whether anything
/// was dropped or cancelled.
pub struct NormState {
    pub comps: Seq<Seq<char>>,
    pub n_up: nat,
    pub changed: bool,
}

pub open spec fn is_dot(c: Seq<char>) -> bool {
    c == seq!['.']
}

pub open spec fn is_dot_dot(c: Seq<char>) -> bool {
    c == seq!['.', '.']
}

/// Takes one piece into the normalization: an empty piece or `.` is dropped;
/// `..` is dropped at the root of an absolute path, kept where only `..`s
/// were kept before it, and otherwise cancels the last component kept.
pub open spec fn normalize_step(st: NormState, comp: Seq<char>, is_abs: bool) -> NormState {
    if comp.len() == 0 || is_dot(comp) {
        NormState { comps: st.comps, n_up: st.n_up, changed: true }
    } else if is_dot_dot(comp) {
        if is_abs && st.comps.len() == 0 {
            NormState { comps: st.comps, n_up: st.n_up, changed: true }
        } else if st.comps.len() == st.n_up {
            NormState { comps: st.comps.push(comp), n_up: st.n_up + 1, changed: st.changed }
        } else {
            NormState { comps: st.comps.drop_last(), n_up: st.n_up, changed: true }
        }
    } else {
        NormState { comps: st.comps.push(comp), n_up: st.n_up, changed: st.changed }
    }
}

/// The normalization of the pieces `comps`, taken from first to last.
pub open spec fn normalize_components(comps: Seq<Seq<char>>, is_abs: bool) -> NormState
    decreases comps.len(),
{
    if comps.len() == 0 {
        NormState { comps: Seq::empty(), n_up: 0, changed: false }
    } else {
        normalize_step(normalize_components(comps.drop_last(), is_abs), comps.last(), is_abs)
    }
}

/// The components `comps` with one `/` between each two.
pub open spec fn join_components(comps: Seq<Seq<char>>) -> Seq<char>
    decreases comps.len(),
{
    if comps.len() == 0 {
        Seq::empty()
    } else if comps.len() == 1 {
        comps[0]
    } else {
        join_components(comps.drop_last()) + seq!['/'] + comps.last()
    }
}

/// The normalized form of `p`. A path that needs no change stays as it is;
/// otherwise the kept components are joined again, after a `/` for an
/// absolute path, and a relative path with none left becomes `.`.
pub open spec fn normalize(p: Seq<char>) -> Seq<char> {
    let is_abs = is_absolute(p);
    let v = path_body(p);
    if is_abs && v.len() == 0 {
        p
    } else {
        let st = normalize_components(split_path(v), is_abs);
        if !st.changed {
            p
        } else if st.comps.len() == 0 {
            if is_abs { seq!['/'] } else { seq!['.'] }
        } else if is_abs {
            seq!['/'] + join_components(st.comps)
        } else {
            join_components(st.comps)
        }
    }
}

/// The path `base` with `component` pushed onto it: an empty component
/// changes nothing, an absolute one replaces the base, and any other follows
/// the base after a `/`; the result is normalized, and so is the base first.
pub open spec fn path_join(base: Seq<char>, component: Seq<char>) -> Seq<char> {
    if component.len() == 0 {
        normalize(base)
    } else if is_absolute(component) {
        normalize(component)
    } else {
        normalize(normalize(base) + seq!['/'] + component)
    }
}

/// Index at which the last component of `p[..i]` starts: just after the last
/// `/` before `i`, or `0` when there is none.
pub open spec fn component_start(p: Seq<char>, i: int) -> int
    decreases i,
{
    if i <= 0 {
        0
    } else if p[i - 1] == '/' {
        i
    } else {
        component_start(p, i - 1)
    }
}

/// The text after the last `/` of `p`.
pub open spec fn last_component(p: Seq<char>) -> Seq<char> {
    p.subrange(component_start(p, p.len() as int), p.len() as int)
}

/// The file name of a normalized path `p`: its last component, unless that is
/// empty (the root), `.` or `..`.
pub open spec fn spec_file_name(p: Seq<char>) -> Option<Seq<char>> {
    let c = last_component(p);
    if c.len() == 0 || c == seq!['.'] || c == seq!['.', '.'] {
        None
    } else {
        Some(c)
    }
}

/// A plain component: a name that is not empty, `.` or `..` and holds no `/`.
pub open spec fn is_plain(c: Seq<char>) -> bool {
    &&& c.len() > 0
    &&& !is_dot(c)
    &&& !is_dot_dot(c)
    &&& forall|i: int| 0 <= i < c.len() ==> c[i] != '/'
}

proof fn lemma_split_path_nonempty(s: Seq<char>)
    ensures
        split_path(s).len() >= 1,
    decreases s.len(),
{
    if s.len() > 0 {
        lemma_split_path_nonempty(s.drop_last());
    }
}

/// Appending text without `/` to a path extends its last piece.
proof fn lemma_split_append(a: Seq<char>, b: Seq<char>)
    requires
        forall|i: int| 0 <= i < b.len() ==> b[i] != '/',
    ensures
        split_path(a + b) == split_path(a).update(
            split_path(a).len() - 1,
            split_path(a).last() + b,
        ),
    decreases b.len(),
{
    lemma_split_path_nonempty(a);
    let pa = split_path(a);
    let n = pa.len();
    if b.len() == 0 {
        assert(a + b =~= a);
        assert(pa.last() + b =~= pa.last());
        assert(pa.update(n - 1, pa.last() + b) =~= pa);
    } else {
        let b0 = b.drop_last();
        let c = b[b.len() - 1];
        assert(c != '/');
        lemma_split_append(a, b0);
        let ab = a + b;
        assert(ab.drop_last() =~= a + b0);
        assert(ab.last() == c);
        let prev = split_path(a + b0);
        assert(prev == pa.update(n - 1, pa.last() + b0));
        assert(prev.len() == n);
        assert(prev.last() == pa.last() + b0);
        assert(split_path(ab) == prev.update(prev.len() - 1, prev.last().push(c)));
        assert((pa.last() + b0).push(c) =~= pa.last() + b);
        assert(prev.update(n - 1, (pa.last() + b0).push(c)) =~= pa.update(n - 1, pa.last() + b));
    }
}

/// Appending `/` and a plain component to a path adds that component as a piece.
proof fn lemma_split_append_component(a: Seq<char>, c: Seq<char>)
    requires
        forall|i: int| 0 <= i < c.len() ==> c[i] != '/',
    ensures
        split_path(a + seq!['/'] + c) == split_path(a).push(c),
{
    let s = a + seq!['/'];
    assert(s.drop_last() =~= a);
    assert(split_path(s) == split_path(a).push(Seq::<char>::empty()));
    lemma_split_append(s, c);
    assert(Seq::<char>::empty() + c =~= c);
    assert(split_path(s).update(split_path(s).len() - 1, split_path(s).last() + c)
        =~= split_path(a).push(c));
}

/// No piece of `cs` holds a `/`.
pub open spec fn pieces_without_slash(cs: Seq<Seq<char>>) -> bool {
    forall|i: int, j: int|
        0 <= i < cs.len() && 0 <= j < cs[i].len() ==> #[trigger] cs[i][j] != '/'
}

/// What normalization keeps: a run of `..` components in front (none in an
/// absolute path), then plain components only.
pub open spec fn state_wf(st: NormState, is_abs: bool) -> bool {
    &&& st.n_up <= st.comps.len()
    &&& forall|i: int| 0 <= i < st.n_up ==> is_dot_dot(#[trigger] st.comps[i])
    &&& forall|i: int| st.n_up <= i < st.comps.len() ==> is_plain(#[trigger] st.comps[i])
    &&& is_abs ==> st.n_up == 0
}

/// A path that normalization leaves as it is because nothing in it is
/// dropped or cancelled.
pub open spec fn is_clean(q: Seq<char>) -> bool {
    &&& path_body(q).len() > 0
    &&& !normalize_components(split_path(path_body(q)), is_absolute(q)).changed
}

proof fn lemma_split_no_slash(s: Seq<char>)
    ensures
        pieces_without_slash(split_path(s)),
    decreases s.len(),
{
    if s.len() > 0 {
        lemma_split_no_slash(s.drop_last());
        lemma_split_path_nonempty(s.drop_last());
        let prev = split_path(s.drop_last());
        let cur = split_path(s);
        if s.last() == '/' {
            assert forall|i: int, j: int|
                0 <= i < cur.len() && 0 <= j < cur[i].len() implies #[trigger] cur[i][j] != '/' by {
                if i < prev.len() {
                    assert(cur[i] == prev[i]);
                }
            }
        } else {
            let nl = prev.last().push(s.last());
            assert forall|i: int, j: int|
                0 <= i < cur.len() && 0 <= j < cur[i].len() implies #[trigger] cur[i][j] != '/' by {
                if i < prev.len() - 1 {
                    assert(cur[i] == prev[i]);
                } else {
                    assert(cur[i] == nl);
                    if j < prev.last().len() {
                        assert(nl[j] == prev[prev.len() - 1][j]);
                    }
                }
            }
        }
    }
}

/// What normalization keeps is well formed, and where nothing changed it
/// kept every piece.
proof fn lemma_normalize_components_wf(pieces: Seq<Seq<char>>, is_abs: bool)
    requires
        pieces_without_slash(pieces),
    ensures
        state_wf(normalize_components(pieces, is_abs), is_abs),
        !normalize_components(pieces, is_abs).changed ==> normalize_components(
            pieces,
            is_abs,
        ).comps == pieces,
    decreases pieces.len(),
{
    if pieces.len() == 0 {
        assert(pieces =~= Seq::<Seq<char>>::empty());
    } else {
        let d = pieces.drop_last();
        assert forall|i: int, j: int| 0 <= i < d.len() && 0 <= j < d[i].len() implies #[trigger] d[i][j]
            != '/' by {
            assert(d[i] == pieces[i]);
        }
        lemma_normalize_components_wf(d, is_abs);
        let st = normalize_components(d, is_abs);
        let c = pieces.last();
        assert forall|j: int| 0 <= j < c.len() implies c[j] != '/' by {
            assert(c[j] == pieces[pieces.len() - 1][j]);
        }
        let nst = normalize_step(st, c, is_abs);
        assert(nst == normalize_components(pieces, is_abs));
        if c.len() == 0 || is_dot(c) {
        } else if is_dot_dot(c) {
            if is_abs && st.comps.len() == 0 {
            } else if st.comps.len() == st.n_up {
                assert forall|i: int| 0 <= i < nst.n_up implies is_dot_dot(#[trigger] nst.comps[i]) by {
                    if i < st.n_up {
                        assert(nst.comps[i] == st.comps[i]);
                    }
                }
                if !nst.changed {
                    assert(d.push(c) =~= pieces);
                }
            } else {
                assert forall|i: int| 0 <= i < nst.n_up implies is_dot_dot(#[trigger] nst.comps[i]) by {
                    assert(nst.comps[i] == st.comps[i]);
                }
                assert forall|i: int| nst.n_up <= i < nst.comps.len() implies is_plain(
                    #[trigger] nst.comps[i],
                ) by {
                    assert(nst.comps[i] == st.comps[i]);
                }
            }
        } else {
            assert(is_plain(c));
            assert forall|i: int| 0 <= i < nst.n_up implies is_dot_dot(#[trigger] nst.comps[i]) by {
                assert(nst.comps[i] == st.comps[i]);
            }
            assert forall|i: int| nst.n_up <= i < nst.comps.len() implies is_plain(
                #[trigger] nst.comps[i],
            ) by {
                if i < st.comps.len() {
                    assert(nst.comps[i] == st.comps[i]);
                }
            }
            if !nst.changed {
                assert(d.push(c) =~= pieces);
            }
        }
    }
}

/// Well-formed components pass through normalization untouched.
proof fn lemma_normalize_wf_components(comps: Seq<Seq<char>>, n: nat, is_abs: bool)
    requires
        state_wf(NormState { comps: comps, n_up: n, changed: false }, is_abs),
    ensures
        normalize_components(comps, is_abs) == (NormState {
            comps: comps,
            n_up: n,
            changed: false,
        }),
    decreases comps.len(),
{
    if comps.len() == 0 {
        assert(comps =~= Seq::<Seq<char>>::empty());
    } else {
        let d = comps.drop_last();
        let n2: nat = if n == comps.len() { (n - 1) as nat } else { n };
        assert forall|i: int| 0 <= i < n2 implies is_dot_dot(#[trigger] d[i]) by {
            assert(d[i] == comps[i]);
        }
        assert forall|i: int| n2 <= i < d.len() implies is_plain(#[trigger] d[i]) by {
            assert(d[i] == comps[i]);
        }
        lemma_normalize_wf_components(d, n2, is_abs);
        let c = comps.last();
        assert(d.push(c) =~= comps);
        if n == comps.len() {
            assert(is_dot_dot(comps[comps.len() - 1]));
        } else {
            assert(is_plain(comps[comps.len() - 1]));
        }
    }
}

proof fn lemma_join_first(cs: Seq<Seq<char>>)
    requires
        cs.len() >= 1,
        cs[0].len() >= 1,
    ensures
        join_components(cs).len() >= 1,
        join_components(cs)[0] == cs[0][0],
    decreases cs.len(),
{
    if cs.len() > 1 {
        let d = cs.drop_last();
        assert(d[0] == cs[0]);
        lemma_join_first(d);
    }
}

proof fn lemma_split_join(cs: Seq<Seq<char>>)
    requires
        cs.len() >= 1,
        pieces_without_slash(cs),
    ensures
        split_path(join_components(cs)) == cs,
    decreases cs.len(),
{
    if cs.len() == 1 {
        let c = cs[0];
        assert forall|j: int| 0 <= j < c.len() implies c[j] != '/' by {
            assert(cs[0][j] == c[j]);
        }
        lemma_split_append(Seq::<char>::empty(), c);
        assert(Seq::<char>::empty() + c =~= c);
        assert(split_path(Seq::<char>::empty()) == seq![Seq::<char>::empty()]);
        assert(seq![Seq::<char>::empty()].update(0, Seq::<char>::empty() + c) =~= cs);
    } else {
        let d = cs.drop_last();
        assert forall|i: int, j: int| 0 <= i < d.len() && 0 <= j < d[i].len() implies #[trigger] d[i][j]
            != '/' by {
            assert(d[i] == cs[i]);
        }
        lemma_split_join(d);
        let c = cs.last();
        assert forall|j: int| 0 <= j < c.len() implies c[j] != '/' by {
            assert(cs[cs.len() - 1][j] == c[j]);
        }
        lemma_split_append_component(join_components(d), c);
        assert(d.push(c) =~= cs);
    }
}

proof fn lemma_normalize_root_and_dot()
    ensures
        normalize(seq!['/']) == seq!['/'],
        normalize(seq!['.']) == seq!['.'],
{
    assert(seq!['/'].skip(1) =~= Seq::<char>::empty());
    let d = seq!['.'];
    assert(d.drop_last() =~= Seq::<char>::empty());
    assert(split_path(Seq::<char>::empty()) == seq![Seq::<char>::empty()]);
    assert(split_path(d) =~= seq![d]);
    assert(seq![d].drop_last() =~= Seq::<Seq<char>>::empty());
    let st = normalize_components(seq![d], false);
    assert(st == normalize_step(normalize_components(Seq::<Seq<char>>::empty(), false), d, false));
    assert(st.changed && st.comps.len() == 0);
}

/// What normalization gives is the root, `.`, or a clean path.
pub proof fn lemma_normalize_result(p: Seq<char>)
    ensures
        normalize(p) == seq!['/'] || normalize(p) == seq!['.'] || is_clean(normalize(p)),
{
    let is_abs = is_absolute(p);
    let v = path_body(p);
    let pieces = split_path(v);
    lemma_split_path_nonempty(v);
    lemma_split_no_slash(v);
    lemma_normalize_components_wf(pieces, is_abs);
    let st = normalize_components(pieces, is_abs);
    if is_abs && v.len() == 0 {
        assert(p =~= seq!['/']);
    } else if !st.changed {
        if v.len() == 0 {
            assert(pieces =~= seq![Seq::<char>::empty()]);
            assert(st.comps == pieces);
            assert(st.comps[0].len() == 0);
            assert(st.n_up <= 0 || is_dot_dot(st.comps[0]));
        }
    } else if st.comps.len() == 0 {
    } else {
        let j = join_components(st.comps);
        assert(st.comps[0].len() > 0) by {
            if st.n_up > 0 {
                assert(is_dot_dot(st.comps[0]));
            } else {
                assert(is_plain(st.comps[0]));
            }
        }
        assert(pieces_without_slash(st.comps)) by {
            assert forall|i: int, k: int| 0 <= i < st.comps.len() && 0 <= k < st.comps[i].len()
                implies #[trigger] st.comps[i][k] != '/' by {
                if i < st.n_up {
                    assert(is_dot_dot(st.comps[i]));
                } else {
                    assert(is_plain(st.comps[i]));
                }
            }
        }
        lemma_join_first(st.comps);
        lemma_split_join(st.comps);
        let q = normalize(p);
        if is_abs {
            assert(q == seq!['/'] + j);
            assert(q[0] == '/');
            assert(path_body(q) =~= j);
        } else {
            assert(q == j);
            assert(!is_absolute(q));
        }
        assert(is_absolute(q) == is_abs);
        lemma_normalize_wf_components(st.comps, st.n_up, is_abs);
    }
}

/// Normalizing twice gives what normalizing once does.
pub proof fn lemma_normalize_idempotent(p: Seq<char>)
    ensures
        normalize(normalize(p)) == normalize(p),
{
    lemma_normalize_result(p);
    lemma_normalize_root_and_dot();
}

/// Normalizing an absolute path gives an absolute path.
pub proof fn lemma_normalize_keeps_absolute(p: Seq<char>)
    requires
        is_absolute(p),
    ensures
        is_absolute(normalize(p)),
{
    let v = path_body(p);
    let st = normalize_components(split_path(v), true);
    if !(v.len() == 0) && st.changed && st.comps.len() > 0 {
        assert((seq!['/'] + join_components(st.comps))[0] == '/');
    }
}

/// Pushing a plain component onto a normalized path: onto the root it gives
/// `/c`, onto `.` it gives `c`, onto any other path `<base>/c`.
pub proof fn lemma_join_normalized(b: Seq<char>, c: Seq<char>)
    requires
        normalize(b) == b,
        is_plain(c),
    ensures
        path_join(b, c) == if b == seq!['/'] {
            seq!['/'] + c
        } else if b == seq!['.'] {
            c
        } else {
            b + seq!['/'] + c
        },
{
    assert(c[0] != '/');
    let s = b + seq!['/'] + c;
    if b == seq!['/'] {
        assert(s[0] == '/');
        assert(path_body(s) =~= Seq::<char>::empty() + seq!['/'] + c);
        lemma_split_append_component(Seq::<char>::empty(), c);
        let pcs = seq![Seq::<char>::empty(), c];
        assert(split_path(Seq::<char>::empty()).push(c) =~= pcs);
        assert(pcs.drop_last() =~= seq![Seq::<char>::empty()]);
        assert(seq![Seq::<char>::empty()].drop_last() =~= Seq::<Seq<char>>::empty());
        let st1 = normalize_components(seq![Seq::<char>::empty()], true);
        assert(seq![Seq::<char>::empty()].last() == Seq::<char>::empty());
        assert(st1 == normalize_step(
            normalize_components(Seq::<Seq<char>>::empty(), true),
            Seq::<char>::empty(),
            true,
        ));
        assert(st1.changed && st1.comps.len() == 0);
        assert(pcs.last() == c);
        let st = normalize_components(pcs, true);
        assert(st == normalize_step(st1, c, true));
        assert(st.changed && st.comps =~= seq![c]);
        assert(path_body(s).len() > 0);
    } else if b == seq!['.'] {
        assert(!is_absolute(s));
        lemma_split_append_component(seq!['.'], c);
        let d = seq!['.'];
        assert(d.drop_last() =~= Seq::<char>::empty());
        assert(split_path(Seq::<char>::empty()) == seq![Seq::<char>::empty()]);
        assert(split_path(d) =~= seq![d]);
        let pcs = seq![d, c];
        assert(split_path(d).push(c) =~= pcs);
        assert(pcs.drop_last() =~= seq![d]);
        assert(seq![d].drop_last() =~= Seq::<Seq<char>>::empty());
        let st1 = normalize_components(seq![d], false);
        assert(seq![d].last() == d);
        assert(st1 == normalize_step(
            normalize_components(Seq::<Seq<char>>::empty(), false),
            d,
            false,
        ));
        assert(is_dot(d));
        assert(st1.changed && st1.comps.len() == 0);
        assert(pcs.last() == c);
        let st = normalize_components(pcs, false);
        assert(st == normalize_step(st1, c, false));
        assert(st.changed && st.comps =~= seq![c]);
    } else {
        lemma_normalize_result(b);
        assert(is_clean(b));
        let v = path_body(b);
        let is_abs = is_absolute(b);
        assert(b.len() > 0);
        assert(s[0] == b[0]);
        assert(is_absolute(s) == is_abs);
        assert(path_body(s) =~= v + seq!['/'] + c);
        lemma_split_append_component(v, c);
        assert(split_path(v).push(c).drop_last() =~= split_path(v));
        let st = normalize_components(split_path(v).push(c), is_abs);
        assert(!st.changed);
    }
}

/// Pushing two different plain components onto the same path gives two
/// different paths, whatever the path.
pub proof fn law_join_plain_injective(base: Seq<char>, c1: Seq<char>, c2: Seq<char>)
    requires
        is_plain(c1),
        is_plain(c2),
        c1 != c2,
    ensures
        path_join(base, c1) != path_join(base, c2),
{
    let b = normalize(base);
    lemma_normalize_idempotent(base);
    lemma_join_normalized(b, c1);
    lemma_join_normalized(b, c2);
    assert(path_join(base, c1) == path_join(b, c1));
    assert(path_join(base, c2) == path_join(b, c2));
    if b == seq!['/'] {
        assert((seq!['/'] + c1).skip(1) =~= c1);
        assert((seq!['/'] + c2).skip(1) =~= c2);
    } else if b == seq!['.'] {
    } else {
        assert((b + seq!['/'] + c1).skip(b.len() as int + 1) =~= c1);
        assert((b + seq!['/'] + c2).skip(b.len() as int + 1) =~= c2);
    }
}

/// Pushing a plain component onto any path gives a normalized path other than
/// the root and `.`, which is the normalized path with the component after a
/// `/`, unless that was the root or `.`.
pub proof fn lemma_join_plain(base: Seq<char>, c: Seq<char>)
    requires
        is_plain(c),
    ensures
        normalize(path_join(base, c)) == path_join(base, c),
        path_join(base, c) != seq!['/'],
        path_join(base, c) != seq!['.'],
        normalize(base) != seq!['/'] && normalize(base) != seq!['.'] ==> path_join(base, c)
            == normalize(base) + seq!['/'] + c,
{
    let b = normalize(base);
    lemma_normalize_idempotent(base);
    lemma_join_normalized(b, c);
    assert(path_join(base, c) == path_join(b, c));
    lemma_normalize_idempotent(b + seq!['/'] + c);
    assert(path_join(b, c) == normalize(b + seq!['/'] + c));
    if b == seq!['/'] {
        assert((seq!['/'] + c).len() >= 2);
    } else if b == seq!['.'] {
        if c == seq!['.'] {
            assert(is_dot(c));
        }
        if c == seq!['/'] {
            assert(c[0] == '/');
        }
    } else {
        assert((b + seq!['/'] + c).len() >= 2);
    }
}

proof fn lemma_component_start_after_slash(s: Seq<char>, k: int, i: int)
    requires
        0 <= k <= i <= s.len(),
        k == 0 || s[k - 1] == '/',
        forall|j: int| k <= j < i ==> s[j] != '/',
    ensures
        component_start(s, i) == k,
    decreases i - k,
{
    if i > k {
        lemma_component_start_after_slash(s, k, i - 1);
    }
}

/// The file name of the path that pushing a plain component onto any path
/// gives is that component.
pub proof fn law_file_name_of_join(base: Seq<char>, c: Seq<char>)
    requires
        is_plain(c),
    ensures
        spec_file_name(path_join(base, c)) == Some(c),
        spec_file_name(normalize(path_join(base, c))) == Some(c),
{
    let b = normalize(base);
    lemma_normalize_idempotent(base);
    lemma_join_normalized(b, c);
    lemma_join_plain(base, c);
    assert(path_join(base, c) == path_join(b, c));
    let r = path_join(base, c);
    let x: Seq<char> = if b == seq!['/'] {
        seq!['/']
    } else if b == seq!['.'] {
        Seq::empty()
    } else {
        b + seq!['/']
    };
    assert(r =~= x + c);
    assert forall|j: int| x.len() <= j < r.len() implies r[j] != '/' by {
        assert(r[j] == c[j - x.len()]);
    }
    if x.len() > 0 {
        assert(r[x.len() - 1] == '/');
    }
    lemma_component_start_after_slash(r, x.len() as int, r.len() as int);
    assert(last_component(r) =~= c);
}

fn is_dot_str(c: &str) -> (r: bool)
    ensures
        r == is_dot(c@),
{
    let n = c.unicode_len();
    if n == 1 && c.get_char(0) == '.' {
        assert(c@ =~= seq!['.']);
        true
    } else {
        proof {
            if c@ == seq!['.'] {
                assert(c@[0] == '.');
            }
        }
        false
    }
}

fn is_dot_dot_str(c: &str) -> (r: bool)
    ensures
        r == is_dot_dot(c@),
{
    let n = c.unicode_len();
    if n == 2 && c.get_char(0) == '.' && c.get_char(1) == '.' {
        assert(c@ =~= seq!['.', '.']);
        true
    } else {
        proof {
            if c@ == seq!['.', '.'] {
                assert(c@[0] == '.' && c@[1] == '.');
            }
        }
        false
    }
}

/// The pieces of `v` between its `/`s.
fn split_pieces(v: &str) -> (r: Vec<String>)
    ensures
        r@.map_values(|s: String| s@) == split_path(v@),
{
    let len = v.unicode_len();
    let mut pieces: Vec<String> = Vec::new();
    let mut start: usize = 0;
    let mut i: usize = 0;
    assert(v@.take(0) =~= Seq::<char>::empty());
    assert(pieces@.map_values(|s: String| s@).push(v@.subrange(0, 0)) =~= seq![
        Seq::<char>::empty(),
    ]);
    while i < len
        invariant
            len == v@.len(),
            start <= i <= len,
            pieces@.map_values(|s: String| s@).push(v@.subrange(start as int, i as int))
                == split_path(v@.take(i as int)),
        decreases len - i,
    {
        let c = v.get_char(i);
        let ghost before = pieces@.map_values(|s: String| s@);
        assert(v@.take(i + 1).drop_last() =~= v@.take(i as int));
        assert(v@.take(i + 1).last() == c);
        if c == '/' {
            let piece = v.substring_char(start, i);
            pieces.push(String::from_str(piece));
            assert(pieces@.map_values(|s: String| s@) =~= before.push(
                v@.subrange(start as int, i as int),
            ));
            start = i + 1;
            assert(v@.subrange(start as int, i + 1) =~= Seq::<char>::empty());
        } else {
            assert(v@.subrange(start as int, i as int).push(c) =~= v@.subrange(
                start as int,
                i + 1,
            ));
            assert(before.push(v@.subrange(start as int, i + 1)) =~= before.push(
                v@.subrange(start as int, i as int),
            ).update(before.len() as int, v@.subrange(start as int, i as int).push(c)));
        }
        i = i + 1;
    }
    let last = v.substring_char(start, len);
    let ghost before = pieces@.map_values(|s: String| s@);
    pieces.push(String::from_str(last));
    assert(v@.take(len as int) =~= v@);
    assert(pieces@.map_values(|s: String| s@) =~= before.push(
        v@.subrange(start as int, len as int),
    ));
    pieces
}

/// The normalized form of the path `p` (see `normalize`).
pub fn normalize_path(p: &str) -> (r: String)
    ensures
        r@ == normalize(p@),
{
    let len = p.unicode_len();
    let is_abs = len > 0 && p.get_char(0) == '/';
    let v: &str = if is_abs {
        p.substring_char(1, len)
    } else {
        p
    };
    assert(v@ == if is_abs { p@.skip(1) } else { p@ });
    let vlen = v.unicode_len();
    if is_abs && vlen == 0 {
        return String::from_str(p);
    }
    let pieces = split_pieces(v);
    let ghost pv = pieces@.map_values(|s: String| s@);
    let mut comps: Vec<String> = Vec::new();
    let mut n_up: usize = 0;
    let mut changed = false;
    let mut i: usize = 0;
    assert(pv.take(0) =~= Seq::<Seq<char>>::empty());
    assert(comps@.map_values(|s: String| s@) =~= Seq::<Seq<char>>::empty());
    while i < pieces.len()
        invariant
            pv == pieces@.map_values(|s: String| s@),
            i <= pieces@.len(),
            n_up <= comps@.len() <= i,
            normalize_components(pv.take(i as int), is_abs) == (NormState {
                comps: comps@.map_values(|s: String| s@),
                n_up: n_up as nat,
                changed: changed,
            }),
        decreases pieces@.len() - i,
    {
        let piece = &pieces[i];
        let ghost before = comps@.map_values(|s: String| s@);
        assert(pv.take(i + 1).drop_last() =~= pv.take(i as int));
        assert(pv.take(i + 1).last() == piece@);
        if piece.unicode_len() == 0 || is_dot_str(piece.as_str()) {
            changed = true;
        } else if is_dot_dot_str(piece.as_str()) {
            if is_abs && comps.len() == 0 {
                changed = true;
            } else if comps.len() == n_up {
                comps.push(piece.clone());
                n_up = n_up + 1;
                assert(comps@.map_values(|s: String| s@) =~= before.push(piece@));
            } else {
                comps.pop();
                changed = true;
                assert(comps@.map_values(|s: String| s@) =~= before.drop_last());
            }
        } else {
            comps.push(piece.clone());
            assert(comps@.map_values(|s: String| s@) =~= before.push(piece@));
        }
        i = i + 1;
    }
    assert(pv.take(pieces@.len() as int) =~= pv);
    if !changed {
        return String::from_str(p);
    }
    if comps.len() == 0 {
        if is_abs {
            proof {
                reveal_strlit("/");
            }
            return String::from_str("/");
        } else {
            proof {
                reveal_strlit(".");
            }
            return String::from_str(".");
        }
    }
    let ghost cv = comps@.map_values(|s: String| s@);
    let mut out = String::new();
    let mut k: usize = 0;
    proof {
        reveal_strlit("/");
    }
    while k < comps.len()
        invariant
            cv == comps@.map_values(|s: String| s@),
            k <= comps@.len(),
            out@ == join_components(cv.take(k as int)),
        decreases comps@.len() - k,
    {
        proof {
            reveal_strlit("/");
        }
        assert(cv.take(k + 1).drop_last() =~= cv.take(k as int));
        assert(cv.take(k + 1).last() == cv[k as int]);
        assert(comps[k as int]@ == cv[k as int]);
        if k > 0 {
            out.append("/");
        } else {
            assert(out@ + cv[0] =~= cv[0]);
            assert(cv.take(1)[0] == cv[0]);
        }
        out.append(comps[k].as_str());
        k = k + 1;
    }
    assert(cv.take(comps@.len() as int) =~= cv);
    if is_abs {
        String::from_str("/").concat(out.as_str())
    } else {
        out
    }
}

/// Pushes `component` onto the path `base` (see `path_join`).
pub fn join(base: &str, component: &str) -> (r: String)
    ensures
        r@ == path_join(base@, component@),
{
    let clen = component.unicode_len();
    if clen == 0 {
        return normalize_path(base);
    }
    if component.get_char(0) == '/' {
        return normalize_path(component);
    }
    let b = normalize_path(base);
    proof {
        reveal_strlit("/");
    }
    let joined = b.concat("/").concat(component);
    assert(joined@ == normalize(base@) + seq!['/'] + component@);
    assert(!is_absolute(component@));
    normalize_path(joined.as_str())
}

/// The file name of the path `p` once normalized, as `spec_file_name` says.
pub fn file_name(p: &str) -> (r: Option<String>)
    ensures
        r matches Some(s) ==> spec_file_name(normalize(p@)) == Some(s@),
        r is None ==> spec_file_name(normalize(p@)) is None,
{
    let np = normalize_path(p);
    let len = np.unicode_len();
    let mut i = len;
    while i > 0 && np.get_char(i - 1) != '/'
        invariant
            i <= len,
            len == np@.len(),
            component_start(np@, i as int) == component_start(np@, len as int),
        decreases i,
    {
        i = i - 1;
    }
    let name = np.substring_char(i, len);
    assert(component_start(np@, i as int) == i as int);
    let nlen = name.unicode_len();
    if nlen == 0 || is_dot_str(name) || is_dot_dot_str(name) {
        return None;
    }
    Some(String::from_str(name))
}

} // verus!
