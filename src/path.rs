//! Textual path model: splitting on `/`, lexical normalisation of `.` and `..`,
//! and rendering a component list back into an absolute path.
use vstd::prelude::*;

verus! {

/// The text of each component.
pub open spec fn texts(c: Seq<String>) -> Seq<Seq<char>> {
    c.map_values(|s: String| s@)
}

/// Scanning state after reading `s`: the pieces closed by a `/`, and the open piece.
pub open spec fn scan(s: Seq<char>) -> (Seq<Seq<char>>, Seq<char>)
    decreases s.len(),
{
    if s.len() == 0 {
        (Seq::empty(), Seq::empty())
    } else {
        let prev = scan(s.drop_last());
        if s.last() == '/' {
            (prev.0.push(prev.1), Seq::empty())
        } else {
            (prev.0, prev.1.push(s.last()))
        }
    }
}

/// The pieces of `s` between slashes, in order.
pub open spec fn split_slash(s: Seq<char>) -> Seq<Seq<char>> {
    scan(s).0.push(scan(s).1)
}

pub open spec fn is_dot(seg: Seq<char>) -> bool {
    seg.len() == 1 && seg[0] == '.'
}

pub open spec fn is_dot_dot(seg: Seq<char>) -> bool {
    seg.len() == 2 && seg[0] == '.' && seg[1] == '.'
}

/// One step of lexical resolution: empty pieces and `.` are dropped, `..` removes the
/// last component and fails when there is none, anything else is appended.
pub open spec fn norm_step(acc: Option<Seq<Seq<char>>>, seg: Seq<char>) -> Option<Seq<Seq<char>>> {
    match acc {
        None => None,
        Some(st) => if seg.len() == 0 || is_dot(seg) {
            Some(st)
        } else if is_dot_dot(seg) {
            if st.len() == 0 {
                None
            } else {
                Some(st.drop_last())
            }
        } else {
            Some(st.push(seg))
        },
    }
}

/// Lexical resolution of a list of pieces, left to right; `None` when a `..` climbs
/// above the top.
pub open spec fn normalize(segs: Seq<Seq<char>>) -> Option<Seq<Seq<char>>>
    decreases segs.len(),
{
    if segs.len() == 0 {
        Some(Seq::empty())
    } else {
        norm_step(normalize(segs.drop_last()), segs.last())
    }
}

/// The normalised components of a path.
pub open spec fn components(p: Seq<char>) -> Option<Seq<Seq<char>>> {
    normalize(split_slash(p))
}

pub open spec fn is_absolute(p: Seq<char>) -> bool {
    p.len() > 0 && p[0] == '/'
}

/// `/c0/c1/.../ck`, empty for no component.
pub open spec fn join_abs(c: Seq<Seq<char>>) -> Seq<char>
    decreases c.len(),
{
    if c.len() == 0 {
        Seq::empty()
    } else {
        join_abs(c.drop_last()) + seq!['/'] + c.last()
    }
}

/// The absolute path with components `c`: `/` when there is none.
pub open spec fn render(c: Seq<Seq<char>>) -> Seq<char> {
    if c.len() == 0 {
        seq!['/']
    } else {
        join_abs(c)
    }
}

/// A component as normalisation leaves it: not empty, not `.` or `..`, no `/`.
pub open spec fn valid_component(seg: Seq<char>) -> bool {
    &&& seg.len() > 0
    &&& !is_dot(seg)
    &&& !is_dot_dot(seg)
    &&& !seg.contains('/')
}

pub open spec fn valid_components(c: Seq<Seq<char>>) -> bool {
    forall|i: int| 0 <= i < c.len() ==> valid_component(#[trigger] c[i])
}

pub proof fn lemma_join_abs_append(a: Seq<Seq<char>>, b: Seq<Seq<char>>)
    ensures
        join_abs(a + b) == join_abs(a) + join_abs(b),
    decreases b.len(),
{
    if b.len() == 0 {
        assert(a + b =~= a);
        assert(join_abs(a) + join_abs(b) =~= join_abs(a));
    } else {
        lemma_join_abs_append(a, b.drop_last());
        assert((a + b).drop_last() =~= a + b.drop_last());
        assert(join_abs(a + b) =~= join_abs(a) + join_abs(b));
    }
}

pub proof fn lemma_join_abs_shape(c: Seq<Seq<char>>)
    ensures
        c.len() > 0 ==> join_abs(c).len() > 0 && join_abs(c)[0] == '/',
    decreases c.len(),
{
    if c.len() > 0 {
        lemma_join_abs_shape(c.drop_last());
        if c.drop_last().len() == 0 {
            assert(join_abs(c.drop_last()) =~= Seq::<char>::empty());
        }
    }
}

/// A rendered path is absolute.
pub proof fn lemma_render_absolute(c: Seq<Seq<char>>)
    ensures
        is_absolute(render(c)),
{
    lemma_join_abs_shape(c);
}

/// The rendering of `a + b` starts with the rendering of `a`, and, where `a` has a
/// component and `b` adds one, with that rendering followed by `/`.
pub proof fn lemma_render_prefix(a: Seq<Seq<char>>, b: Seq<Seq<char>>)
    ensures
        render(a).is_prefix_of(render(a + b)),
        a.len() > 0 && b.len() > 0 ==> (render(a) + seq!['/']).is_prefix_of(render(a + b)),
{
    lemma_join_abs_append(a, b);
    lemma_join_abs_shape(b);
    lemma_join_abs_shape(a + b);
    if a.len() == 0 {
        assert(a + b =~= b);
    } else {
        if b.len() == 0 {
            assert(a + b =~= a);
        } else {
            assert(join_abs(b)[0] == '/');
        }
    }
}

proof fn lemma_scan_plain(s: Seq<char>, w: Seq<char>)
    requires
        !w.contains('/'),
    ensures
        scan(s + w) == (scan(s).0, scan(s).1 + w),
    decreases w.len(),
{
    if w.len() == 0 {
        assert(s + w =~= s);
        assert(scan(s).1 + w =~= scan(s).1);
    } else {
        let w0 = w.drop_last();
        assert(!w0.contains('/')) by {
            if w0.contains('/') {
                let k = choose|k: int| 0 <= k < w0.len() && w0[k] == '/';
                assert(w[k] == '/');
            }
        }
        lemma_scan_plain(s, w0);
        assert((s + w).drop_last() =~= s + w0);
        assert(w[w.len() - 1] != '/');
        assert(scan(s).1 + w =~= (scan(s).1 + w0).push(w.last()));
    }
}

proof fn lemma_split_join_abs(c: Seq<Seq<char>>)
    requires
        valid_components(c),
    ensures
        split_slash(join_abs(c)) == seq![Seq::<char>::empty()] + c,
    decreases c.len(),
{
    if c.len() == 0 {
        assert(join_abs(c) =~= Seq::<char>::empty());
        assert(seq![Seq::<char>::empty()] + c =~= seq![Seq::<char>::empty()]);
    } else {
        let c0 = c.drop_last();
        assert(valid_components(c0)) by {
            assert forall|i: int| 0 <= i < c0.len() implies valid_component(#[trigger] c0[i]) by {
                assert(c0[i] == c[i]);
            }
        }
        lemma_split_join_abs(c0);
        let s = join_abs(c0) + seq!['/'];
        assert(s.drop_last() =~= join_abs(c0));
        assert(valid_component(c[c.len() - 1]));
        lemma_scan_plain(s, c.last());
        assert(Seq::<char>::empty() + c.last() =~= c.last());
        assert(seq![Seq::<char>::empty()] + c =~= (seq![Seq::<char>::empty()] + c0).push(c.last()));
    }
}

proof fn lemma_normalize_lead_empty(c: Seq<Seq<char>>)
    requires
        valid_components(c),
    ensures
        normalize(seq![Seq::<char>::empty()] + c) == Some(c),
    decreases c.len(),
{
    let e = seq![Seq::<char>::empty()];
    if c.len() == 0 {
        assert(e + c =~= e);
        assert(e.drop_last() =~= Seq::<Seq<char>>::empty());
        assert(normalize(e.drop_last()) == Some(Seq::<Seq<char>>::empty()));
        assert(e.last().len() == 0);
        assert(normalize(e) == Some(Seq::<Seq<char>>::empty()));
        assert(c =~= Seq::<Seq<char>>::empty());
    } else {
        let c0 = c.drop_last();
        assert(valid_components(c0)) by {
            assert forall|i: int| 0 <= i < c0.len() implies valid_component(#[trigger] c0[i]) by {
                assert(c0[i] == c[i]);
            }
        }
        lemma_normalize_lead_empty(c0);
        assert((e + c).drop_last() =~= e + c0);
        assert(valid_component(c[c.len() - 1]));
        assert(c0.push(c.last()) =~= c);
    }
}

/// Rendering valid components and parsing the result gives them back.
pub proof fn lemma_parse_render(c: Seq<Seq<char>>)
    requires
        valid_components(c),
    ensures
        components(render(c)) == Some(c),
{
    if c.len() == 0 {
        let s = seq!['/'];
        assert(s.drop_last() =~= Seq::<char>::empty());
        assert(scan(s.drop_last()) == (Seq::<Seq<char>>::empty(), Seq::<char>::empty()));
        let e = seq![Seq::<char>::empty()];
        assert(split_slash(s) =~= e + e);
        assert(valid_components(c));
        lemma_normalize_lead_empty(c);
        assert(e + c =~= e);
        assert((e + e).drop_last() =~= e);
        assert((e + e).last().len() == 0);
        assert(c =~= Seq::<Seq<char>>::empty());
    } else {
        lemma_split_join_abs(c);
        lemma_normalize_lead_empty(c);
    }
}

proof fn lemma_scan_no_slash(s: Seq<char>)
    ensures
        !scan(s).1.contains('/'),
        forall|i: int| 0 <= i < scan(s).0.len() ==> !(#[trigger] scan(s).0[i]).contains('/'),
    decreases s.len(),
{
    if s.len() > 0 {
        lemma_scan_no_slash(s.drop_last());
        let prev = scan(s.drop_last());
        if s.last() != '/' {
            let w = prev.1.push(s.last());
            assert(!w.contains('/')) by {
                if w.contains('/') {
                    let k = choose|k: int| 0 <= k < w.len() && w[k] == '/';
                    if k < prev.1.len() {
                        assert(prev.1[k] == '/');
                    }
                }
            }
        } else {
            assert(!Seq::<char>::empty().contains('/'));
        }
    }
}

proof fn lemma_normalize_valid(segs: Seq<Seq<char>>)
    requires
        forall|i: int| 0 <= i < segs.len() ==> !(#[trigger] segs[i]).contains('/'),
        normalize(segs) is Some,
    ensures
        valid_components(normalize(segs)->0),
    decreases segs.len(),
{
    if segs.len() > 0 {
        let s0 = segs.drop_last();
        assert forall|i: int| 0 <= i < s0.len() implies !(#[trigger] s0[i]).contains('/') by {
            assert(s0[i] == segs[i]);
        }
        lemma_normalize_valid(s0);
        let st = normalize(s0)->0;
        let r = normalize(segs)->0;
        assert(!segs[segs.len() - 1].contains('/'));
        assert forall|i: int| 0 <= i < r.len() implies valid_component(#[trigger] r[i]) by {
            if i < st.len() {
                assert(r[i] == st[i]);
            }
        }
    }
}

/// What parsing yields is valid.
pub proof fn lemma_components_valid(p: Seq<char>)
    requires
        components(p) is Some,
    ensures
        valid_components(components(p)->0),
{
    lemma_scan_no_slash(p);
    let segs = split_slash(p);
    assert forall|i: int| 0 <= i < segs.len() implies !(#[trigger] segs[i]).contains('/') by {
        if i < scan(p).0.len() {
            assert(segs[i] == scan(p).0[i]);
        }
    }
    lemma_normalize_valid(segs);
}

/// The concatenation of valid component lists is valid.
pub proof fn lemma_valid_append(a: Seq<Seq<char>>, b: Seq<Seq<char>>)
    requires
        valid_components(a),
        valid_components(b),
    ensures
        valid_components(a + b),
{
    assert forall|i: int| 0 <= i < (a + b).len() implies valid_component(#[trigger] (a + b)[i]) by {
        if i < a.len() {
            assert((a + b)[i] == a[i]);
        } else {
            assert((a + b)[i] == b[i - a.len()]);
        }
    }
}

/// Copies the characters of `s` into a vector.
pub fn chars_of(s: &str) -> (r: Vec<char>)
    ensures
        r@ == s@,
{
    let mut out: Vec<char> = Vec::new();
    for c in it: s.chars()
        invariant
            out@ == it.seq().take(it.index() as int),
            it.seq() == s@,
    {
        out.push(c);
    }
    out
}

/// Applies one resolution step to `stack`; false when `seg` is a `..` with nothing
/// left to remove, and then `stack` is unchanged.
fn resolve_step(stack: &mut Vec<String>, seg: &str) -> (ok: bool)
    ensures
        ok == norm_step(Some(texts(old(stack)@)), seg@) is Some,
        ok ==> Some(texts(final(stack)@)) == norm_step(Some(texts(old(stack)@)), seg@),
        !ok ==> final(stack)@ == old(stack)@,
{
    let len = seg.unicode_len();
    if len == 0 || (len == 1 && seg.get_char(0) == '.') {
        true
    } else if len == 2 && seg.get_char(0) == '.' && seg.get_char(1) == '.' {
        if stack.len() == 0 {
            false
        } else {
            stack.pop();
            assert(texts(stack@) =~= texts(old(stack)@).drop_last());
            true
        }
    } else {
        stack.push(String::from_str(seg));
        assert(texts(stack@) =~= texts(old(stack)@).push(seg@));
        true
    }
}

/// Splits `p` on `/` and resolves `.` and `..` lexically; `None` when a `..` climbs
/// above the top.
pub fn parse_components(p: &str) -> (r: Option<Vec<String>>)
    ensures
        r is Some <==> components(p@) is Some,
        r is Some ==> texts(r->0@) == components(p@)->0,
{
    let cs = chars_of(p);
    let n = cs.len();
    let mut stack: Vec<String> = Vec::new();
    let mut failed = false;
    let mut start: usize = 0;
    let mut i: usize = 0;
    let ghost mut done: Seq<Seq<char>> = Seq::empty();
    assert(p@.take(0) =~= Seq::<char>::empty());
    assert(p@.subrange(0, 0) =~= Seq::<char>::empty());
    assert(texts(stack@) =~= Seq::<Seq<char>>::empty());
    while i < n
        invariant
            cs@ == p@,
            n == cs.len(),
            start <= i <= n,
            scan(p@.take(i as int)) == (done, p@.subrange(start as int, i as int)),
            failed ==> normalize(done) is None,
            !failed ==> normalize(done) == Some(texts(stack@)),
        decreases n - i,
    {
        assert(p@.take(i + 1).drop_last() =~= p@.take(i as int));
        if cs[i] == '/' {
            let seg = p.substring_char(start, i);
            proof {
                assert(done.push(seg@).drop_last() =~= done);
            }
            if !failed {
                let ok = resolve_step(&mut stack, seg);
                failed = !ok;
            }
            proof {
                done = done.push(seg@);
            }
            start = i + 1;
            assert(p@.subrange(start as int, i + 1) =~= Seq::<char>::empty());
        } else {
            assert(p@.subrange(start as int, i + 1) =~= p@.subrange(start as int, i as int).push(cs@[i as int]));
        }
        i = i + 1;
    }
    assert(p@.take(n as int) =~= p@);
    let seg = p.substring_char(start, n);
    assert(split_slash(p@).drop_last() =~= done);
    if failed {
        return None;
    }
    let ok = resolve_step(&mut stack, seg);
    if ok {
        Some(stack)
    } else {
        None
    }
}

} // verus!
