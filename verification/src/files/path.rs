//! Remote path arithmetic.
//!
//! Paths are `/`-separated and absolute from the user's files root. Normalised,
//! the root is `/`, every other path has a leading and no trailing slash, and
//! repeated separators collapse.

use vstd::prelude::*;
use vstd::string::StrSliceExecFns;

use crate::text::{chars_of, push_chars, string_of};

verus! {

// ---------------------------------------------------------------------------
// The model: a path is the list of its non-empty `/`-separated segments
// ---------------------------------------------------------------------------

/// The state after reading `s` left to right: the finished segments, and the
/// segment still being read.
pub open spec fn scan(s: Seq<char>) -> (Seq<Seq<char>>, Seq<char>)
    decreases s.len(),
{
    if s.len() == 0 {
        (seq![], seq![])
    } else {
        scan_step(scan(s.drop_last()), s.last())
    }
}

pub open spec fn scan_step(st: (Seq<Seq<char>>, Seq<char>), c: char) -> (Seq<Seq<char>>, Seq<char>) {
    if c == '/' {
        if st.1.len() > 0 {
            (st.0.push(st.1), seq![])
        } else {
            (st.0, seq![])
        }
    } else {
        (st.0, st.1.push(c))
    }
}

/// The non-empty segments of `s`, what `s.split('/').filter(|x| !x.is_empty())`
/// yields.
pub open spec fn segments(s: Seq<char>) -> Seq<Seq<char>> {
    let st = scan(s);
    if st.1.len() > 0 {
        st.0.push(st.1)
    } else {
        st.0
    }
}

/// Each segment with a `/` in front, concatenated.
pub open spec fn slash_join(segs: Seq<Seq<char>>) -> Seq<char>
    decreases segs.len(),
{
    if segs.len() == 0 {
        seq![]
    } else {
        slash_join(segs.drop_last()) + seq!['/'] + segs.last()
    }
}

/// The normal form of a path: `/` for the root, else `/seg1/seg2/...`.
pub open spec fn normal(s: Seq<char>) -> Seq<char> {
    let segs = segments(s);
    if segs.len() == 0 {
        seq!['/']
    } else {
        slash_join(segs)
    }
}

/// A segment as [`segments`] produces them: non-empty, and free of `/`.
pub open spec fn is_segment(seg: Seq<char>) -> bool {
    seg.len() > 0 && !seg.contains('/')
}

pub open spec fn all_segments(segs: Seq<Seq<char>>) -> bool {
    forall|i: int| 0 <= i < segs.len() ==> is_segment(#[trigger] segs[i])
}

/// A path already in normal form.
pub open spec fn is_normalised(p: Seq<char>) -> bool {
    p == seq!['/'] || (p.len() > 1 && p[0] == '/' && p.last() != '/' && !has_double_slash(p))
}

pub open spec fn has_double_slash(p: Seq<char>) -> bool {
    exists|i: int| 0 <= i < p.len() - 1 && #[trigger] slashes_at(p, i)
}

/// Whether `p` holds `//` starting at `i`.
pub open spec fn slashes_at(p: Seq<char>, i: int) -> bool {
    p[i] == '/' && p[i + 1] == '/'
}

/// The containing directory of a path, clamped at the root.
pub open spec fn parent_of(s: Seq<char>) -> Seq<char> {
    let segs = segments(s);
    if segs.len() <= 1 {
        seq!['/']
    } else {
        slash_join(segs.drop_last())
    }
}

/// `s` with every trailing `/` removed.
pub open spec fn trim_end_slashes(s: Seq<char>) -> Seq<char>
    decreases s.len(),
{
    if s.len() > 0 && s.last() == '/' {
        trim_end_slashes(s.drop_last())
    } else {
        s
    }
}

/// The characters after the last `/` of `s`, or all of `s` without one.
pub open spec fn after_last_slash(s: Seq<char>) -> Seq<char>
    decreases s.len(),
{
    if s.len() == 0 {
        seq![]
    } else if s.last() == '/' {
        seq![]
    } else {
        after_last_slash(s.drop_last()).push(s.last())
    }
}

/// The last component of a path, ignoring trailing slashes.
pub open spec fn name_of(s: Seq<char>) -> Seq<char> {
    after_last_slash(trim_end_slashes(s))
}

/// Whether `p` lies strictly inside `d`.
pub open spec fn inside(d: Seq<char>, p: Seq<char>) -> bool {
    let nd = normal(d);
    let np = normal(p);
    if nd == seq!['/'] {
        np != seq!['/']
    } else {
        np.len() > nd.len() && np.subrange(0, nd.len() as int) == nd && np[nd.len() as int] == '/'
    }
}

// ---------------------------------------------------------------------------
// Lemmas about the model
// ---------------------------------------------------------------------------

/// Scanning a separator-free string only grows the pending segment.
pub proof fn lemma_scan_plain(p: Seq<char>, t: Seq<char>)
    requires
        !t.contains('/'),
    ensures
        scan(p + t) == (scan(p).0, scan(p).1 + t),
    decreases t.len(),
{
    if t.len() == 0 {
        assert(p + t =~= p);
        assert(scan(p).1 + t =~= scan(p).1);
    } else {
        let t0 = t.drop_last();
        assert(!t0.contains('/')) by {
            if t0.contains('/') {
                let k = choose|k: int| 0 <= k < t0.len() && t0[k] == '/';
                assert(t[k] == '/');
            }
        }
        lemma_scan_plain(p, t0);
        assert((p + t).drop_last() =~= p + t0);
        assert((p + t).last() == t.last());
        assert(t.last() != '/') by {
            assert(t[t.len() - 1] == t.last());
        }
        assert(scan(p).1 + t0 + seq![t.last()] =~= scan(p).1 + t);
        assert((scan(p).1 + t0).push(t.last()) =~= scan(p).1 + t);
    }
}

/// After a separator, the scan restarts: what precedes it contributes exactly
/// its segments.
pub proof fn lemma_scan_after_slash(a: Seq<char>, b: Seq<char>)
    ensures
        scan(a + seq!['/'] + b) == (segments(a) + scan(b).0, scan(b).1),
    decreases b.len(),
{
    if b.len() == 0 {
        assert(a + seq!['/'] + b =~= a.push('/'));
        assert((a.push('/')).drop_last() =~= a);
        assert(segments(a) + scan(b).0 =~= segments(a));
    } else {
        let b0 = b.drop_last();
        lemma_scan_after_slash(a, b0);
        assert((a + seq!['/'] + b).drop_last() =~= a + seq!['/'] + b0);
        assert((a + seq!['/'] + b).last() == b.last());
        let c = b.last();
        let st = scan(b0);
        if c == '/' {
            if st.1.len() > 0 {
                assert((segments(a) + st.0).push(st.1) =~= segments(a) + st.0.push(st.1));
            }
        }
    }
}

/// Splitting at a separator splits the segment list.
pub proof fn lemma_segments_concat(a: Seq<char>, b: Seq<char>)
    ensures
        segments(a + seq!['/'] + b) == segments(a) + segments(b),
{
    lemma_scan_after_slash(a, b);
    let st = scan(b);
    if st.1.len() > 0 {
        assert((segments(a) + st.0).push(st.1) =~= segments(a) + st.0.push(st.1));
    }
}

pub proof fn lemma_segments_plain(t: Seq<char>)
    requires
        is_segment(t),
    ensures
        segments(t) == seq![t],
{
    lemma_scan_plain(seq![], t);
    assert(seq![] + t =~= t);
    assert(Seq::<char>::empty() + t =~= t);
    assert(Seq::<Seq<char>>::empty().push(t) =~= seq![t]);
}

/// The segments of a joined list are the list.
pub proof fn lemma_segments_of_join(segs: Seq<Seq<char>>)
    requires
        all_segments(segs),
    ensures
        segments(slash_join(segs)) == segs,
    decreases segs.len(),
{
    if segs.len() == 0 {
        assert(scan(seq![]) == (Seq::<Seq<char>>::empty(), Seq::<char>::empty()));
        assert(segments(seq![]) =~= segs);
    } else {
        let init = segs.drop_last();
        assert(all_segments(init)) by {
            assert forall|i: int| 0 <= i < init.len() implies is_segment(#[trigger] init[i]) by {
                assert(init[i] == segs[i]);
            }
        }
        lemma_segments_of_join(init);
        assert(is_segment(segs[segs.len() - 1]));
        lemma_segments_plain(segs.last());
        lemma_segments_concat(slash_join(init), segs.last());
        assert(init + seq![segs.last()] =~= segs);
    }
}

/// Every scanned segment is a proper segment, and so is a pending one free of
/// separators.
pub proof fn lemma_scan_wf(s: Seq<char>)
    ensures
        all_segments(scan(s).0),
        !scan(s).1.contains('/'),
    decreases s.len(),
{
    if s.len() > 0 {
        lemma_scan_wf(s.drop_last());
        let st = scan(s.drop_last());
        let c = s.last();
        if c == '/' {
            if st.1.len() > 0 {
                let d = st.0.push(st.1);
                assert forall|i: int| 0 <= i < d.len() implies is_segment(#[trigger] d[i]) by {
                    if i < st.0.len() {
                        assert(d[i] == st.0[i]);
                    }
                }
            }
        } else {
            assert(!st.1.push(c).contains('/')) by {
                if st.1.push(c).contains('/') {
                    let k = choose|k: int| 0 <= k < st.1.push(c).len() && st.1.push(c)[k] == '/';
                    if k < st.1.len() {
                        assert(st.1[k] == '/');
                    }
                }
            }
        }
    } else {
        assert(!Seq::<char>::empty().contains('/'));
    }
}

pub proof fn lemma_segments_wf(s: Seq<char>)
    ensures
        all_segments(segments(s)),
{
    lemma_scan_wf(s);
    let st = scan(s);
    if st.1.len() > 0 {
        let d = st.0.push(st.1);
        assert forall|i: int| 0 <= i < d.len() implies is_segment(#[trigger] d[i]) by {
            if i < st.0.len() {
                assert(d[i] == st.0[i]);
            }
        }
    }
}

/// Joining concatenated lists concatenates the joins.
pub proof fn lemma_join_concat(x: Seq<Seq<char>>, y: Seq<Seq<char>>)
    ensures
        slash_join(x + y) == slash_join(x) + slash_join(y),
    decreases y.len(),
{
    if y.len() == 0 {
        assert(x + y =~= x);
        assert(slash_join(x) + Seq::<char>::empty() =~= slash_join(x));
    } else {
        lemma_join_concat(x, y.drop_last());
        assert((x + y).drop_last() =~= x + y.drop_last());
        assert((x + y).last() == y.last());
        assert(slash_join(x) + slash_join(y.drop_last()) + seq!['/'] + y.last() =~= slash_join(x)
            + (slash_join(y.drop_last()) + seq!['/'] + y.last()));
    }
}

/// A non-empty join starts with a separator.
pub proof fn lemma_join_starts_with_slash(segs: Seq<Seq<char>>)
    requires
        segs.len() > 0,
    ensures
        slash_join(segs).len() > 0,
        slash_join(segs)[0] == '/',
    decreases segs.len(),
{
    let init = segs.drop_last();
    let j = slash_join(segs);
    assert(j == slash_join(init) + seq!['/'] + segs.last());
    if segs.len() > 1 {
        lemma_join_starts_with_slash(init);
        assert(j[0] == slash_join(init)[0]);
    } else {
        assert(slash_join(init) =~= Seq::<char>::empty());
        assert(j[0] == '/');
    }
}

/// The separator-free prefix after any `/` in a join is non-empty: the join
/// never holds `//` and never ends in `/`.
pub proof fn lemma_join_shape(segs: Seq<Seq<char>>)
    requires
        all_segments(segs),
        segs.len() > 0,
    ensures
        slash_join(segs).len() > 1,
        slash_join(segs).last() != '/',
        !has_double_slash(slash_join(segs)),
    decreases segs.len(),
{
    let init = segs.drop_last();
    let last = segs.last();
    assert(is_segment(segs[segs.len() - 1]));
    let j = slash_join(segs);
    let ji = slash_join(init);
    assert(j == ji + seq!['/'] + last);
    assert(last[last.len() - 1] != '/') by {
        assert(!last.contains('/'));
    }
    assert(j.last() == last.last());
    if init.len() > 0 {
        assert(all_segments(init)) by {
            assert forall|i: int| 0 <= i < init.len() implies is_segment(#[trigger] init[i]) by {
                assert(init[i] == segs[i]);
            }
        }
        lemma_join_shape(init);
    }
    assert(!has_double_slash(j)) by {
        if has_double_slash(j) {
            let i = choose|i: int| 0 <= i < j.len() - 1 && #[trigger] slashes_at(j, i);
            let n = ji.len() as int;
            if i + 1 < n {
                assert(ji[i] == j[i] && ji[i + 1] == j[i + 1]);
                assert(slashes_at(ji, i));
                assert(init.len() > 0);
            } else if i + 1 == n {
                assert(init.len() > 0);
                assert(ji[i] == j[i]);
                assert(ji.last() == ji[n - 1]);
            } else if i == n {
                assert(j[i + 1] == last[0]);
                assert(last.contains('/'));
            } else {
                assert(j[i + 1] == last[i + 1 - n - 1]);
                assert(last.contains('/'));
            }
        }
    }
}

// ---------------------------------------------------------------------------
// Laws
// ---------------------------------------------------------------------------

/// Normalising yields a normalised path.
pub proof fn law_normalise_is_normalised(s: Seq<char>)
    ensures
        is_normalised(normal(s)),
{
    lemma_segments_wf(s);
    let segs = segments(s);
    if segs.len() > 0 {
        lemma_join_shape(segs);
        lemma_join_starts_with_slash(segs);
    }
}

/// Normalising twice is normalising once.
pub proof fn law_normalise_idempotent(s: Seq<char>)
    ensures
        normal(normal(s)) == normal(s),
{
    lemma_segments_wf(s);
    let segs = segments(s);
    if segs.len() == 0 {
        assert(seq!['/'] =~= Seq::<char>::empty() + seq!['/'] + Seq::<char>::empty());
        lemma_segments_concat(seq![], seq![]);
        assert(segments(Seq::<char>::empty()) =~= Seq::<Seq<char>>::empty());
        assert(segments(seq!['/']) =~= Seq::<Seq<char>>::empty());
    } else {
        lemma_segments_of_join(segs);
    }
}

/// Joining a name onto a directory normalises the two with a separator
/// between them: its segments are the directory's then the name's.
pub proof fn law_join_segments(dir: Seq<char>, name: Seq<char>)
    ensures
        segments(dir + seq!['/'] + name) == segments(dir) + segments(name),
{
    lemma_segments_concat(dir, name);
}

/// A name with at least one segment, joined onto a directory, lies inside it.
pub proof fn law_join_inside(dir: Seq<char>, name: Seq<char>)
    requires
        segments(name).len() > 0,
    ensures
        inside(dir, normal(dir + seq!['/'] + name)),
{
    let ds = segments(dir);
    let ns = segments(name);
    lemma_segments_concat(dir, name);
    lemma_segments_wf(dir);
    lemma_segments_wf(name);
    let all = ds + ns;
    assert(all_segments(all)) by {
        assert forall|i: int| 0 <= i < all.len() implies is_segment(#[trigger] all[i]) by {
            if i < ds.len() {
                assert(all[i] == ds[i]);
            } else {
                assert(all[i] == ns[i - ds.len()]);
            }
        }
    }
    let p = normal(dir + seq!['/'] + name);
    assert(p == slash_join(all));
    lemma_segments_of_join(all);
    assert(normal(p) == p);
    lemma_join_concat(ds, ns);
    lemma_join_starts_with_slash(ns);
    lemma_join_shape(all);
    if ds.len() == 0 {
        assert(normal(dir) == seq!['/']);
        assert(p.len() > 1);
    } else {
        let nd = slash_join(ds);
        assert(normal(dir) == nd);
        assert(p == nd + slash_join(ns));
        assert(p.subrange(0, nd.len() as int) =~= nd);
        assert(p[nd.len() as int] == slash_join(ns)[0]);
        lemma_join_shape(ds);
        assert(nd != seq!['/']);
    }
}

/// Nothing lies inside itself.
pub proof fn law_not_inside_itself(p: Seq<char>)
    ensures
        !inside(p, p),
{
}

/// The parent of a path with a segment, joined with its name, is the path
/// again.
pub proof fn law_parent_join_name(p: Seq<char>)
    requires
        segments(p).len() > 0,
    ensures
        normal(parent_of(p) + seq!['/'] + segments(p).last()) == normal(p),
{
    let segs = segments(p);
    lemma_segments_wf(p);
    let init = segs.drop_last();
    assert(all_segments(init)) by {
        assert forall|i: int| 0 <= i < init.len() implies is_segment(#[trigger] init[i]) by {
            assert(init[i] == segs[i]);
        }
    }
    assert(is_segment(segs[segs.len() - 1]));
    lemma_segments_plain(segs.last());
    lemma_segments_concat(parent_of(p), segs.last());
    if segs.len() <= 1 {
        assert(parent_of(p) == seq!['/']);
        assert(seq!['/'] =~= Seq::<char>::empty() + seq!['/'] + Seq::<char>::empty());
        lemma_segments_concat(seq![], seq![]);
        assert(segments(Seq::<char>::empty()) =~= Seq::<Seq<char>>::empty());
        assert(segments(seq!['/']) =~= Seq::<Seq<char>>::empty());
        assert(Seq::<Seq<char>>::empty() + seq![segs.last()] =~= segs);
    } else {
        lemma_segments_of_join(init);
        assert(init + seq![segs.last()] =~= segs);
    }
}

// ---------------------------------------------------------------------------
// Executable code
// ---------------------------------------------------------------------------

/// The non-empty `/`-separated segments of `s`.
pub fn split_segments(s: &[char]) -> (r: Vec<Vec<char>>)
    ensures
        r@.len() == segments(s@).len(),
        forall|i: int| 0 <= i < r@.len() ==> (#[trigger] r@[i])@ == segments(s@)[i],
{
    let mut done: Vec<Vec<char>> = Vec::new();
    let mut cur: Vec<char> = Vec::new();
    let mut i: usize = 0;
    while i < s.len()
        invariant
            i <= s.len(),
            done@.len() == scan(s@.take(i as int)).0.len(),
            forall|k: int| 0 <= k < done@.len() ==> (#[trigger] done@[k])@ == scan(
                s@.take(i as int),
            ).0[k],
            cur@ == scan(s@.take(i as int)).1,
        decreases s.len() - i,
    {
        let c = s[i];
        proof {
            assert(s@.take(i + 1 as int).drop_last() =~= s@.take(i as int));
            assert(s@.take(i + 1 as int).last() == c);
        }
        if c == '/' {
            if cur.len() > 0 {
                let seg = cur;
                done.push(seg);
                cur = Vec::new();
            }
        } else {
            cur.push(c);
        }
        i = i + 1;
    }
    proof {
        assert(s@.take(s.len() as int) =~= s@);
    }
    if cur.len() > 0 {
        done.push(cur);
    }
    done
}

/// `/` then each segment, for `segs`.
fn join_segments(segs: &Vec<Vec<char>>, n: usize) -> (r: Vec<char>)
    requires
        n <= segs@.len(),
    ensures
        r@ == slash_join(Seq::new(n as nat, |i: int| segs@[i]@)),
{
    let mut out: Vec<char> = Vec::new();
    let mut i: usize = 0;
    while i < n
        invariant
            i <= n <= segs@.len(),
            out@ == slash_join(Seq::new(i as nat, |k: int| segs@[k]@)),
        decreases n - i,
    {
        out.push('/');
        push_chars(&mut out, segs[i].as_slice());
        i = i + 1;
        proof {
            let s1 = Seq::new(i as nat, |k: int| segs@[k]@);
            assert(s1.drop_last() =~= Seq::new((i - 1) as nat, |k: int| segs@[k]@));
        }
    }
    out
}

proof fn lemma_segs_view(r: Seq<Vec<char>>, segs: Seq<Seq<char>>)
    requires
        r.len() == segs.len(),
        forall|i: int| 0 <= i < r.len() ==> (#[trigger] r[i])@ == segs[i],
    ensures
        Seq::new(r.len(), |i: int| r[i]@) == segs,
{
    assert(Seq::new(r.len(), |i: int| r[i]@) =~= segs);
}

pub fn normalise_chars(path: &[char]) -> (r: Vec<char>)
    ensures
        r@ == normal(path@),
{
    let segs = split_segments(path);
    proof {
        lemma_segs_view(segs@, segments(path@));
    }
    if segs.len() == 0 {
        let mut out: Vec<char> = Vec::new();
        out.push('/');
        proof {
            assert(out@ =~= seq!['/']);
        }
        out
    } else {
        join_segments(&segs, segs.len())
    }
}

/// Normalise to a leading slash and no trailing slash. The root is `/`.
pub fn normalise(path: &str) -> (r: String)
    ensures
        r@ == normal(path@),
{
    let v = chars_of(path);
    let n = normalise_chars(v.as_slice());
    string_of(n.as_slice())
}

/// The containing directory, clamped at the root.
pub fn parent(path: &str) -> (r: String)
    ensures
        r@ == parent_of(path@),
{
    let v = chars_of(path);
    let segs = split_segments(v.as_slice());
    if segs.len() <= 1 {
        let root = ['/'];
        proof {
            assert(root@ =~= seq!['/']);
        }
        return string_of(&root);
    }
    let out = join_segments(&segs, segs.len() - 1);
    proof {
        let full = Seq::new(segs@.len(), |i: int| segs@[i]@);
        lemma_segs_view(segs@, segments(v@));
        assert(Seq::new((segs@.len() - 1) as nat, |i: int| segs@[i]@) =~= full.drop_last());
    }
    string_of(out.as_slice())
}

/// Append a child name to a directory. A `/` in the name is a separator.
pub fn join(dir: &str, name: &str) -> (r: String)
    ensures
        r@ == normal(dir@ + seq!['/'] + name@),
{
    let mut v = chars_of(dir);
    v.push('/');
    let n = chars_of(name);
    push_chars(&mut v, n.as_slice());
    proof {
        assert(v@ =~= dir@ + seq!['/'] + name@);
    }
    let out = normalise_chars(v.as_slice());
    string_of(out.as_slice())
}

pub fn trim_end_slashes_chars(s: &[char]) -> (r: usize)
    ensures
        r <= s.len(),
        s@.take(r as int) == trim_end_slashes(s@),
{
    let mut end = s.len();
    proof {
        assert(s@.take(end as int) =~= s@);
    }
    while end > 0 && s[end - 1] == '/'
        invariant
            end <= s.len(),
            trim_end_slashes(s@.take(end as int)) == trim_end_slashes(s@),
        decreases end,
    {
        proof {
            assert(s@.take(end as int).drop_last() =~= s@.take(end - 1 as int));
        }
        end = end - 1;
    }
    proof {
        if end > 0 {
            assert(s@.take(end as int).last() == s@[end - 1]);
        }
    }
    end
}

/// Index just past the last `/` in `s[..end]`, or 0 without one.
pub fn after_last_slash_index(s: &[char], end: usize) -> (r: usize)
    requires
        end <= s.len(),
    ensures
        r <= end,
        s@.subrange(r as int, end as int) == after_last_slash(s@.take(end as int)),
{
    let mut start = end;
    while start > 0 && s[start - 1] != '/'
        invariant
            start <= end <= s.len(),
            after_last_slash(s@.take(end as int)) == after_last_slash(s@.take(start as int))
                + s@.subrange(start as int, end as int),
        decreases start,
    {
        proof {
            let t = s@.take(start as int);
            assert(t.drop_last() =~= s@.take(start - 1 as int));
            assert(t.last() == s@[start - 1]);
            assert(s@.subrange(start - 1 as int, end as int) =~= seq![s@[start - 1]]
                + s@.subrange(start as int, end as int));
            assert(after_last_slash(s@.take(start - 1 as int)).push(s@[start - 1])
                + s@.subrange(start as int, end as int) =~= after_last_slash(
                s@.take(start - 1 as int),
            ) + s@.subrange(start - 1 as int, end as int));
        }
        start = start - 1;
    }
    proof {
        let t = s@.take(start as int);
        if start > 0 {
            assert(t.last() == s@[start - 1]);
        }
        assert(after_last_slash(t) =~= Seq::<char>::empty());
        assert(Seq::<char>::empty() + s@.subrange(start as int, end as int) =~= s@.subrange(
            start as int,
            end as int,
        ));
    }
    start
}

/// The last component, ignoring trailing slashes: `"c"` for `"/a/b/c/"`.
pub fn name(path: &str) -> (r: &str)
    ensures
        r@ == name_of(path@),
{
    let v = chars_of(path);
    let end = trim_end_slashes_chars(v.as_slice());
    let start = after_last_slash_index(v.as_slice(), end);
    proof {
        assert(v@.take(end as int) == trim_end_slashes(v@));
    }
    path.substring_char(start, end)
}

/// Cumulative segments, for breadcrumbs: `("b", "/a/b")`.
pub fn trail(path: &str) -> (r: Vec<(String, String)>)
    ensures
        r@.len() == segments(path@).len(),
        forall|i: int|
            0 <= i < r@.len() ==> (#[trigger] r@[i]).0@ == segments(path@)[i] && r@[i].1@
                == slash_join(segments(path@).take(i + 1)),
{
    let v = chars_of(path);
    let segs = split_segments(v.as_slice());
    let ghost model = segments(v@);
    let mut out: Vec<(String, String)> = Vec::new();
    let mut acc: Vec<char> = Vec::new();
    let mut i: usize = 0;
    while i < segs.len()
        invariant
            i <= segs@.len() == model.len(),
            model == segments(path@),
            forall|k: int| 0 <= k < segs@.len() ==> (#[trigger] segs@[k])@ == model[k],
            acc@ == slash_join(model.take(i as int)),
            out@.len() == i,
            forall|k: int|
                0 <= k < i ==> (#[trigger] out@[k]).0@ == model[k] && out@[k].1@ == slash_join(
                    model.take(k + 1),
                ),
        decreases segs@.len() - i,
    {
        acc.push('/');
        push_chars(&mut acc, segs[i].as_slice());
        proof {
            assert(model.take(i + 1 as int).drop_last() =~= model.take(i as int));
            assert(model.take(i + 1 as int).last() == model[i as int]);
        }
        let seg = string_of(segs[i].as_slice());
        let cum = string_of(acc.as_slice());
        out.push((seg, cum));
        i = i + 1;
    }
    out
}

/// Whether `path` is inside `dir`, at any depth.
pub fn contains(dir: &str, path: &str) -> (r: bool)
    ensures
        r == inside(dir@, path@),
{
    let d = normalise_chars(chars_of(dir).as_slice());
    let p = normalise_chars(chars_of(path).as_slice());
    if d.len() == 1 && d[0] == '/' {
        proof {
            assert(d@ =~= seq!['/']);
        }
        let root = d.len() == p.len() && p[0] == '/';
        proof {
            if p@.len() == 1 && p@[0] == '/' {
                assert(p@ =~= seq!['/']);
            }
        }
        return !root;
    }
    proof {
        assert(d@ != seq!['/']) by {
            if d@ == seq!['/'] {
                assert(d@.len() == 1 && d@[0] == '/');
            }
        }
    }
    // the separator check stops /ab claiming /abc
    crate::text::starts_with(p.as_slice(), d.as_slice()) && p.len() > d.len() && p[d.len()] == '/'
}

} // verus!
