//! Byte paths, as the kernel sees them: prefixes, joins and the resolution of
//! `.` and `..` segments.

use vstd::prelude::*;

verus! {

/// The separator of path segments.
pub const SEP: u8 = 47;

/// `Some` of what remains of `path` once `prefix` is taken off, when `prefix`
/// names `path` itself or one of its ancestors (segment-wise, as `Path::strip_prefix`
/// does on paths without repeated separators).
pub open spec fn strip_prefix_spec(path: Seq<u8>, prefix: Seq<u8>) -> Option<Seq<u8>> {
    let n = prefix.len() as int;
    if n <= path.len() && path.subrange(0, n) == prefix {
        if n == path.len() {
            Some(Seq::<u8>::empty())
        } else if n == 0 {
            Some(path)
        } else if path[n] == SEP {
            Some(path.subrange(n + 1, path.len() as int))
        } else if prefix[n - 1] == SEP {
            Some(path.subrange(n, path.len() as int))
        } else {
            None
        }
    } else {
        None
    }
}

/// `base` followed by the relative path `rel`, with one separator between them.
pub open spec fn join_spec(base: Seq<u8>, rel: Seq<u8>) -> Seq<u8> {
    if rel.len() == 0 {
        base
    } else if base.len() == 0 {
        rel
    } else if base.last() == SEP {
        base + rel
    } else {
        base.push(SEP) + rel
    }
}

/// The view of an optional byte vector.
pub open spec fn opt_bytes(o: Option<Vec<u8>>) -> Option<Seq<u8>> {
    match o {
        Some(v) => Some(v@),
        None => None,
    }
}

/// Whether `a` and `b` hold the same bytes.
pub fn bytes_eq(a: &[u8], b: &[u8]) -> (r: bool)
    ensures
        r == (a@ == b@),
{
    if a.len() != b.len() {
        return false;
    }
    let mut i: usize = 0;
    while i < a.len()
        invariant
            a@.len() == b@.len(),
            0 <= i <= a@.len(),
            a@.subrange(0, i as int) == b@.subrange(0, i as int),
        decreases a@.len() - i,
    {
        if a[i] != b[i] {
            assert(a@[i as int] != b@[i as int]);
            return false;
        }
        assert(a@.subrange(0, i + 1) == a@.subrange(0, i as int).push(a@[i as int]));
        assert(b@.subrange(0, i + 1) == b@.subrange(0, i as int).push(b@[i as int]));
        i = i + 1;
    }
    assert(a@ == a@.subrange(0, a@.len() as int));
    assert(b@ == b@.subrange(0, b@.len() as int));
    true
}

/// Whether `s` begins with the bytes of `prefix`.
pub fn starts_with(s: &[u8], prefix: &[u8]) -> (r: bool)
    ensures
        r == (prefix@.len() <= s@.len() && s@.subrange(0, prefix@.len() as int) == prefix@),
{
    if prefix.len() > s.len() {
        return false;
    }
    let mut i: usize = 0;
    while i < prefix.len()
        invariant
            prefix@.len() <= s@.len(),
            0 <= i <= prefix@.len(),
            s@.subrange(0, i as int) == prefix@.subrange(0, i as int),
        decreases prefix@.len() - i,
    {
        if s[i] != prefix[i] {
            assert(s@.subrange(0, prefix@.len() as int)[i as int] != prefix@[i as int]);
            return false;
        }
        assert(s@.subrange(0, i + 1) == s@.subrange(0, i as int).push(s@[i as int]));
        assert(prefix@.subrange(0, i + 1) == prefix@.subrange(0, i as int).push(prefix@[i as int]));
        i = i + 1;
    }
    assert(prefix@.subrange(0, prefix@.len() as int) == prefix@);
    true
}

/// Appends the bytes of `src` to `dst`.
pub fn push_bytes(dst: &mut Vec<u8>, src: &[u8])
    ensures
        final(dst)@ == old(dst)@ + src@,
{
    let mut i: usize = 0;
    while i < src.len()
        invariant
            0 <= i <= src@.len(),
            dst@ == old(dst)@ + src@.subrange(0, i as int),
        decreases src@.len() - i,
    {
        dst.push(src[i]);
        assert(src@.subrange(0, i + 1) == src@.subrange(0, i as int).push(src@[i as int]));
        i = i + 1;
    }
    assert(src@ == src@.subrange(0, src@.len() as int));
}

/// The bytes of `s` from index `from` to its end.
pub fn tail_bytes(s: &[u8], from: usize) -> (r: Vec<u8>)
    requires
        from <= s@.len(),
    ensures
        r@ == s@.subrange(from as int, s@.len() as int),
{
    let mut r: Vec<u8> = Vec::new();
    let mut i: usize = from;
    while i < s.len()
        invariant
            from <= i <= s@.len(),
            r@ == s@.subrange(from as int, i as int),
        decreases s@.len() - i,
    {
        r.push(s[i]);
        assert(s@.subrange(from as int, i + 1) == s@.subrange(from as int, i as int).push(s@[i as int]));
        i = i + 1;
    }
    r
}

/// What remains of `path` below `prefix`, or `None` when `prefix` is not `path`
/// or one of its ancestors.
pub fn strip_path_prefix(path: &[u8], prefix: &[u8]) -> (r: Option<Vec<u8>>)
    ensures
        opt_bytes(r) == strip_prefix_spec(path@, prefix@),
{
    if !starts_with(path, prefix) {
        return None;
    }
    let n = prefix.len();
    if n == path.len() {
        Some(Vec::new())
    } else if n == 0 {
        Some(tail_bytes(path, 0))
    } else if path[n] == SEP {
        Some(tail_bytes(path, n + 1))
    } else if prefix[n - 1] == SEP {
        Some(tail_bytes(path, n))
    } else {
        None
    }
}

/// Whether one of `prefixes` is a leading run of whole segments of `path`, as
/// `path_prefix_spec` says.
pub fn has_prefix(path: &Vec<u8>, prefixes: &Vec<Vec<u8>>) -> (r: bool)
    ensures
        r == exists|i: int|
            0 <= i < prefixes@.len() && #[trigger] path_prefix_spec(path@, prefixes@[i]@),
{
    let path_parts = parts_of(path.as_slice());
    let mut i: usize = 0;
    while i < prefixes.len()
        invariant
            0 <= i <= prefixes@.len(),
            views(path_parts@) == parts(path@),
            forall|j: int| 0 <= j < i ==> !(#[trigger] path_prefix_spec(path@, prefixes@[j]@)),
        decreases prefixes@.len() - i,
    {
        let pre = prefixes[i].as_slice();
        let pre_parts = parts_of(pre);
        let roots_agree = is_rooted(path.as_slice()) == is_rooted(pre) || (!is_rooted(pre)
            && pre_parts.len() == 0);
        if roots_agree && parts_prefix(&pre_parts, &path_parts) {
            assert(path_prefix_spec(path@, prefixes@[i as int]@));
            return true;
        }
        i = i + 1;
    }
    false
}

/// `base` joined with the relative path `rel`.
pub fn join_path(base: &[u8], rel: &[u8]) -> (r: Vec<u8>)
    ensures
        r@ == join_spec(base@, rel@),
{
    let mut r: Vec<u8> = Vec::new();
    push_bytes(&mut r, base);
    if rel.len() == 0 {
        assert(r@ == base@);
        return r;
    }
    if base.len() > 0 && base[base.len() - 1] != SEP {
        r.push(SEP);
    }
    push_bytes(&mut r, rel);
    r
}

/// The byte `.`.
pub const DOT: u8 = 46;

/// The segments of `s` read up to its end: those closed by a separator, and the
/// one still open.
pub open spec fn split_state(s: Seq<u8>) -> (Seq<Seq<u8>>, Seq<u8>)
    decreases s.len(),
{
    if s.len() == 0 {
        (Seq::empty(), Seq::empty())
    } else {
        let (done, cur) = split_state(s.drop_last());
        if s.last() == SEP {
            (done.push(cur), Seq::empty())
        } else {
            (done, cur.push(s.last()))
        }
    }
}

/// The segments of `s` between separators, empty ones included.
pub open spec fn segments(s: Seq<u8>) -> Seq<Seq<u8>> {
    split_state(s).0.push(split_state(s).1)
}

/// Whether `seg` is a segment that names the directory it stands in.
pub open spec fn is_current(seg: Seq<u8>) -> bool {
    seg.len() == 0 || seg == seq![DOT]
}

/// Whether `seg` is the segment that names the parent directory.
pub open spec fn is_parent(seg: Seq<u8>) -> bool {
    seg == seq![DOT, DOT]
}

/// The directory reached from `stack` through the one segment `seg`; `None` when
/// `seg` climbs above the top.
pub open spec fn step_spec(stack: Seq<Seq<u8>>, seg: Seq<u8>) -> Option<Seq<Seq<u8>>> {
    if is_current(seg) {
        Some(stack)
    } else if is_parent(seg) {
        if stack.len() == 0 {
            None
        } else {
            Some(stack.drop_last())
        }
    } else {
        Some(stack.push(seg))
    }
}

/// The directory reached from `base` through `segs`, or `None` when the walk
/// climbs above the top at any point.
pub open spec fn resolve_spec(base: Seq<Seq<u8>>, segs: Seq<Seq<u8>>) -> Option<Seq<Seq<u8>>>
    decreases segs.len(),
{
    if segs.len() == 0 {
        Some(base)
    } else {
        match resolve_spec(base, segs.drop_last()) {
            Some(st) => step_spec(st, segs.last()),
            None => None,
        }
    }
}

/// The segments `c` written with one separator between each two.
pub open spec fn join_segments(c: Seq<Seq<u8>>) -> Seq<u8>
    decreases c.len(),
{
    if c.len() == 0 {
        Seq::empty()
    } else if c.len() == 1 {
        c[0]
    } else {
        join_segments(c.drop_last()).push(SEP) + c.last()
    }
}

/// The views of a sequence of byte vectors.
pub open spec fn views(v: Seq<Vec<u8>>) -> Seq<Seq<u8>> {
    v.map_values(|x: Vec<u8>| x@)
}

/// Whether every segment of `c` names a child: none is empty, `.` or `..`.
pub open spec fn clean_segments(c: Seq<Seq<u8>>) -> bool {
    forall|i: int| 0 <= i < c.len() ==> !is_current(#[trigger] c[i]) && !is_parent(c[i])
}

/// The closed segments of a prefix of `s` begin the closed segments of `s`.
proof fn lemma_split_prefix(s: Seq<u8>, i: int)
    requires
        0 <= i <= s.len(),
    ensures
        split_state(s.subrange(0, i)).0.len() <= split_state(s).0.len(),
        split_state(s).0.subrange(0, split_state(s.subrange(0, i)).0.len() as int)
            == split_state(s.subrange(0, i)).0,
    decreases s.len(),
{
    if i == s.len() {
        assert(s.subrange(0, i) == s);
    } else {
        lemma_split_prefix(s.drop_last(), i);
        assert(s.drop_last().subrange(0, i) == s.subrange(0, i));
    }
}

/// A walk that has climbed above the top stays failed whatever follows.
proof fn lemma_resolve_fails_on(base: Seq<Seq<u8>>, segs: Seq<Seq<u8>>, n: int)
    requires
        0 <= n <= segs.len(),
        resolve_spec(base, segs.subrange(0, n)) is None,
    ensures
        resolve_spec(base, segs) is None,
    decreases segs.len(),
{
    if n < segs.len() {
        assert(segs.drop_last().subrange(0, n) == segs.subrange(0, n));
        lemma_resolve_fails_on(base, segs.drop_last(), n);
    } else {
        assert(segs.subrange(0, n) == segs);
    }
}

fn is_current_exec(seg: &Vec<u8>) -> (r: bool)
    ensures
        r == is_current(seg@),
{
    if seg.len() == 0 {
        return true;
    }
    if seg.len() == 1 && seg[0] == DOT {
        assert(seg@ == seq![DOT]);
        return true;
    }
    assert(seg@.len() == 1 ==> seg@ != seq![DOT] || seg@[0] == DOT);
    false
}

fn is_parent_exec(seg: &Vec<u8>) -> (r: bool)
    ensures
        r == is_parent(seg@),
{
    if seg.len() == 2 && seg[0] == DOT && seg[1] == DOT {
        assert(seg@ == seq![DOT, DOT]);
        return true;
    }
    assert(seg@ == seq![DOT, DOT] ==> seg@.len() == 2 && seg@[0] == DOT && seg@[1] == DOT);
    false
}

/// One step of a walk: applies the segment `seg` to the directory `stack`.
fn step(stack: &mut Vec<Vec<u8>>, seg: Vec<u8>) -> (ok: bool)
    ensures
        ok == step_spec(views(old(stack)@), seg@) is Some,
        ok ==> step_spec(views(old(stack)@), seg@) == Some(views(final(stack)@)),
{
    if is_current_exec(&seg) {
        true
    } else if is_parent_exec(&seg) {
        if stack.len() == 0 {
            false
        } else {
            let _ = stack.pop();
            assert(views(stack@) =~= views(old(stack)@).drop_last());
            true
        }
    } else {
        stack.push(seg);
        assert(views(stack@) =~= views(old(stack)@).push(seg@));
        true
    }
}

/// Walks from the directory `base` through the segments of `s`; `None` when the
/// walk climbs above the top.
pub fn resolve_segments(base: Vec<Vec<u8>>, s: &[u8]) -> (r: Option<Vec<Vec<u8>>>)
    ensures
        match r {
            Some(st) => resolve_spec(views(base@), segments(s@)) == Some(views(st@)),
            None => resolve_spec(views(base@), segments(s@)) is None,
        },
{
    let mut stack = base;
    let mut cur: Vec<u8> = Vec::new();
    let mut i: usize = 0;
    assert(s@.subrange(0, 0) =~= Seq::<u8>::empty());
    while i < s.len()
        invariant
            0 <= i <= s@.len(),
            split_state(s@.subrange(0, i as int)).1 == cur@,
            resolve_spec(views(base@), split_state(s@.subrange(0, i as int)).0) == Some(views(stack@)),
        decreases s@.len() - i,
    {
        let ghost pre = s@.subrange(0, i as int);
        let ghost next = s@.subrange(0, i + 1);
        assert(next.drop_last() == pre);
        assert(next.last() == s@[i as int]);
        if s[i] == SEP {
            let seg = cur;
            cur = Vec::new();
            let ghost done = split_state(pre).0;
            assert(split_state(next).0 == done.push(seg@));
            assert(split_state(next).0.drop_last() == done);
            if !step(&mut stack, seg) {
                proof {
                    let n = split_state(next).0.len() as int;
                    lemma_split_prefix(s@, i + 1);
                    assert(segments(s@).subrange(0, n) == split_state(next).0);
                    lemma_resolve_fails_on(views(base@), segments(s@), n);
                }
                return None;
            }
        } else {
            cur.push(s[i]);
        }
        i = i + 1;
    }
    assert(s@.subrange(0, s@.len() as int) == s@);
    let ghost done = split_state(s@).0;
    assert(segments(s@).drop_last() == done);
    if !step(&mut stack, cur) {
        return None;
    }
    Some(stack)
}

/// The segments of `c` written with one separator between each two.
pub fn join_all(c: &Vec<Vec<u8>>) -> (r: Vec<u8>)
    ensures
        r@ == join_segments(views(c@)),
{
    let mut r: Vec<u8> = Vec::new();
    let mut i: usize = 0;
    while i < c.len()
        invariant
            0 <= i <= c@.len(),
            r@ == join_segments(views(c@).subrange(0, i as int)),
        decreases c@.len() - i,
    {
        let ghost pre = views(c@).subrange(0, i as int);
        let ghost next = views(c@).subrange(0, i + 1);
        assert(next.drop_last() == pre);
        if i > 0 {
            r.push(SEP);
        }
        push_bytes(&mut r, c[i].as_slice());
        i = i + 1;
    }
    assert(views(c@).subrange(0, c@.len() as int) == views(c@));
    r
}

/// Whether `s` begins with a separator.
pub open spec fn rooted(s: Seq<u8>) -> bool {
    s.len() > 0 && s[0] == SEP
}

/// The components of `s` read up to its end: those closed by a separator, and
/// the segment still open.
pub open spec fn parts_state(s: Seq<u8>) -> (Seq<Seq<u8>>, Seq<u8>)
    decreases s.len(),
{
    if s.len() == 0 {
        (Seq::empty(), Seq::empty())
    } else {
        let (done, cur) = parts_state(s.drop_last());
        if s.last() == SEP {
            if kept_part(cur, s.len() == 2) {
                (done.push(cur), Seq::empty())
            } else {
                (done, Seq::empty())
            }
        } else {
            (done, cur.push(s.last()))
        }
    }
}

/// Whether a segment `seg` counts as a component: it is not empty, and it is not
/// `.` unless it stands first in its path (`first`).
pub open spec fn kept_part(seg: Seq<u8>, first: bool) -> bool {
    seg.len() > 0 && (seg != seq![DOT] || first)
}

/// The components of `s`, as `Path::components` reads them: the segments between
/// separators, empty ones and `.` ones left out but for a `.` that begins the path.
pub open spec fn parts(s: Seq<u8>) -> Seq<Seq<u8>> {
    if kept_part(parts_state(s).1, s.len() == 1) {
        parts_state(s).0.push(parts_state(s).1)
    } else {
        parts_state(s).0
    }
}

/// Whether `prefix` is a leading run of whole segments of `path`, as
/// `Path::starts_with` compares them: empty segments (repeated or trailing
/// separators) and `.` segments past the first do not count, and a rooted prefix only begins a rooted path, while
/// an empty prefix begins every path.
pub open spec fn path_prefix_spec(path: Seq<u8>, prefix: Seq<u8>) -> bool {
    (rooted(prefix) == rooted(path) || (!rooted(prefix) && parts(prefix).len() == 0))
        && parts(prefix).len() <= parts(path).len()
        && parts(path).subrange(0, parts(prefix).len() as int) == parts(prefix)
}

fn is_rooted(s: &[u8]) -> (r: bool)
    ensures
        r == rooted(s@),
{
    s.len() > 0 && s[0] == SEP
}

fn keeps(seg: &Vec<u8>, first: bool) -> (r: bool)
    ensures
        r == kept_part(seg@, first),
{
    if seg.len() == 0 {
        return false;
    }
    if seg.len() == 1 && seg[0] == DOT {
        assert(seg@ =~= seq![DOT]);
        return first;
    }
    assert(seg@ != seq![DOT]) by {
        if seg@ == seq![DOT] {
            assert(seg@.len() == 1 && seg@[0] == DOT);
        }
    }
    true
}

/// The components of `s`, as `parts` says.
pub fn parts_of(s: &[u8]) -> (r: Vec<Vec<u8>>)
    ensures
        views(r@) == parts(s@),
{
    let mut done: Vec<Vec<u8>> = Vec::new();
    let mut cur: Vec<u8> = Vec::new();
    let mut i: usize = 0;
    assert(s@.subrange(0, 0) =~= Seq::<u8>::empty());
    assert(views(done@) =~= Seq::<Seq<u8>>::empty());
    while i < s.len()
        invariant
            0 <= i <= s@.len(),
            parts_state(s@.subrange(0, i as int)).0 == views(done@),
            parts_state(s@.subrange(0, i as int)).1 == cur@,
        decreases s@.len() - i,
    {
        let ghost next = s@.subrange(0, i + 1);
        assert(next.drop_last() == s@.subrange(0, i as int));
        assert(next.last() == s@[i as int]);
        if s[i] == SEP {
            if keeps(&cur, i == 1) {
                let ghost before = done@;
                done.push(cur);
                assert(views(done@) =~= views(before).push(parts_state(s@.subrange(0, i as int)).1));
            }
            cur = Vec::new();
        } else {
            cur.push(s[i]);
        }
        i = i + 1;
    }
    assert(s@.subrange(0, s@.len() as int) == s@);
    if keeps(&cur, s.len() == 1) {
        let ghost before = done@;
        done.push(cur);
        assert(views(done@) =~= views(before).push(parts_state(s@).1));
    }
    done
}

/// Whether the segments `a` begin the segments `b`.
fn parts_prefix(a: &Vec<Vec<u8>>, b: &Vec<Vec<u8>>) -> (r: bool)
    ensures
        r == (views(a@).len() <= views(b@).len() && views(b@).subrange(0, views(a@).len() as int)
            == views(a@)),
{
    if a.len() > b.len() {
        return false;
    }
    let mut i: usize = 0;
    while i < a.len()
        invariant
            a@.len() <= b@.len(),
            0 <= i <= a@.len(),
            views(b@).subrange(0, i as int) == views(a@).subrange(0, i as int),
        decreases a@.len() - i,
    {
        if !bytes_eq(a[i].as_slice(), b[i].as_slice()) {
            assert(views(b@).subrange(0, views(a@).len() as int)[i as int] != views(a@)[i as int]);
            return false;
        }
        assert(views(b@).subrange(0, i + 1) == views(b@).subrange(0, i as int).push(views(b@)[i as int]));
        assert(views(a@).subrange(0, i + 1) == views(a@).subrange(0, i as int).push(views(a@)[i as int]));
        i = i + 1;
    }
    assert(views(a@).subrange(0, a@.len() as int) == views(a@));
    true
}

} // verus!
