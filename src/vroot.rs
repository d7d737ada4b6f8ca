//! The server's sandbox: a real directory under which every virtual path is resolved.
use vstd::prelude::*;
use crate::path::{
    components, is_absolute, join_abs, lemma_components_valid, lemma_join_abs_append,
    lemma_join_abs_shape, lemma_parse_render, lemma_render_prefix, lemma_valid_append,
    parse_components, render, texts, valid_components,
};

verus! {

/// Why a path was refused.
#[derive(Debug, Clone, Copy, PartialEq, Eq, Structural)]
pub enum PathError {
    /// The path does not begin with `/`.
    NotAbsolute,
    /// A `..` climbs above the top of the path.
    Escapes,
    /// The real path does not lie under the root.
    OutsideRoot,
}

/// The view of a path result.
pub open spec fn path_view(r: Result<String, PathError>) -> Result<Seq<char>, PathError> {
    match r {
        Ok(s) => Ok(s@),
        Err(e) => Err(e),
    }
}

/// The real path that the virtual path `v` names under the root with components `root`.
pub open spec fn real_of(root: Seq<Seq<char>>, v: Seq<char>) -> Result<Seq<char>, PathError> {
    if !is_absolute(v) {
        Err(PathError::NotAbsolute)
    } else {
        match components(v) {
            None => Err(PathError::Escapes),
            Some(c) => Ok(render(root + c)),
        }
    }
}

/// The components of the real path `p` below the root, when it lies under it.
pub open spec fn inside_of(root: Seq<Seq<char>>, p: Seq<char>) -> Result<Seq<Seq<char>>, PathError> {
    if !is_absolute(p) {
        Err(PathError::NotAbsolute)
    } else {
        match components(p) {
            None => Err(PathError::Escapes),
            Some(c) => if root.is_prefix_of(c) {
                Ok(c.skip(root.len() as int))
            } else {
                Err(PathError::OutsideRoot)
            },
        }
    }
}

/// The virtual path of the real path `p`.
pub open spec fn virtual_of(root: Seq<Seq<char>>, p: Seq<char>) -> Result<Seq<char>, PathError> {
    match inside_of(root, p) {
        Ok(rest) => Ok(render(rest)),
        Err(e) => Err(e),
    }
}

/// Appends `/c` for each component from index `start` on.
fn push_components(out: &mut String, c: &Vec<String>, start: usize)
    requires
        start <= c.len(),
    ensures
        final(out)@ == old(out)@ + join_abs(texts(c@).skip(start as int)),
{
    let mut i = start;
    proof {
        reveal_strlit("/");
        assert(texts(c@).subrange(start as int, start as int) =~= Seq::<Seq<char>>::empty());
        assert(old(out)@ + join_abs(Seq::<Seq<char>>::empty()) =~= old(out)@);
    }
    while i < c.len()
        invariant
            start <= i <= c.len(),
            out@ == old(out)@ + join_abs(texts(c@).subrange(start as int, i as int)),
        decreases c.len() - i,
    {
        out.append("/");
        out.append(c[i].as_str());
        proof {
            reveal_strlit("/");
            let t = texts(c@);
            assert(t.subrange(start as int, i + 1).drop_last() =~= t.subrange(start as int, i as int));
            assert(t[i as int] == c@[i as int]@);
            assert(out@ =~= old(out)@ + join_abs(t.subrange(start as int, i + 1)));
        }
        i = i + 1;
    }
    assert(texts(c@).subrange(start as int, c.len() as int) =~= texts(c@).skip(start as int));
}

/// The path `/`.
fn root_text() -> (r: String)
    ensures
        r@ == seq!['/'],
{
    let r = String::from_str("/");
    proof {
        reveal_strlit("/");
    }
    assert(r@ =~= seq!['/']);
    r
}

/// The absolute path with the given components.
fn render_components(c: &Vec<String>) -> (r: String)
    ensures
        r@ == render(texts(c@)),
{
    let mut out = String::new();
    push_components(&mut out, c, 0);
    assert(texts(c@).skip(0) =~= texts(c@));
    if c.len() == 0 {
        root_text()
    } else {
        assert(out@ =~= join_abs(texts(c@)));
        out
    }
}

/// A real directory, held in normal form, under which virtual paths are resolved.
pub struct VirtualRoot {
    virtual_root: String,
    root_components: Vec<String>,
}

impl VirtualRoot {
    /// The components of the root.
    pub closed spec fn root(&self) -> Seq<Seq<char>> {
        texts(self.root_components@)
    }

    #[verifier::type_invariant]
    closed spec fn inv(&self) -> bool {
        &&& self.virtual_root@ == render(self.root())
        &&& valid_components(self.root())
    }

    /// A root at the absolute path `root`, held as its normal form (`.` and `..`
    /// resolved, repeated and trailing slashes dropped).
    pub fn new(root: &str) -> (r: Result<VirtualRoot, PathError>)
        ensures
            !is_absolute(root@) ==> r == Err::<VirtualRoot, PathError>(PathError::NotAbsolute),
            is_absolute(root@) && components(root@) is None ==> r == Err::<VirtualRoot, PathError>(
                PathError::Escapes,
            ),
            is_absolute(root@) && components(root@) is Some ==> r is Ok && r->Ok_0.root()
                == components(root@)->0,
            r matches Ok(vr) ==> valid_components(vr.root()),
    {
        let cs = crate::path::chars_of(root);
        if cs.len() == 0 || cs[0] != '/' {
            return Err(PathError::NotAbsolute);
        }
        match parse_components(root) {
            None => Err(PathError::Escapes),
            Some(comps) => {
                proof {
                    lemma_components_valid(root@);
                }
                let text = render_components(&comps);
                Ok(VirtualRoot { virtual_root: text, root_components: comps })
            },
        }
    }

    /// The root, as an absolute path in normal form.
    pub fn get_root(&self) -> (r: &str)
        ensures
            r@ == render(self.root()),
    {
        proof {
            use_type_invariant(self);
        }
        self.virtual_root.as_str()
    }

    /// The virtual path of `real_path`: what follows the root, with a leading `/`.
    pub fn to_virtual_path(&self, real_path: &str) -> (r: Result<String, PathError>)
        ensures
            path_view(r) == virtual_of(self.root(), real_path@),
    {
        let rest = self.components_inside(real_path);
        match rest {
            Err(e) => Err(e),
            Ok(comps) => {
                let n = self.root_components.len();
                let mut out = String::new();
                push_components(&mut out, &comps, n);
                proof {
                    lemma_join_abs_shape(texts(comps@).skip(n as int));
                    assert(texts(comps@).skip(n as int) =~= components(real_path@)->0.skip(
                        self.root().len() as int,
                    ));
                }
                if out.unicode_len() == 0 {

                    Ok(root_text())
                } else {
                    assert(out@ =~= join_abs(texts(comps@).skip(n as int)));
                    Ok(out)
                }
            },
        }
    }

    /// The components of `real_path`, when it lies under the root.
    fn components_inside(&self, real_path: &str) -> (r: Result<Vec<String>, PathError>)
        ensures
            r matches Ok(c) ==> inside_of(self.root(), real_path@) is Ok && texts(c@) == components(
                real_path@,
            )->0,
            r matches Err(e) ==> inside_of(self.root(), real_path@) == Err::<Seq<Seq<char>>, PathError>(e),
    {
        let cs = crate::path::chars_of(real_path);
        if cs.len() == 0 || cs[0] != '/' {
            return Err(PathError::NotAbsolute);
        }
        match parse_components(real_path) {
            None => Err(PathError::Escapes),
            Some(comps) => {
                let n = self.root_components.len();
                if n > comps.len() {
                    assert(!self.root().is_prefix_of(texts(comps@)));
                    return Err(PathError::OutsideRoot);
                }
                let mut i: usize = 0;
                while i < n
                    invariant
                        n == self.root_components.len(),
                        n <= comps.len(),
                        is_absolute(real_path@),
                        components(real_path@) == Some(texts(comps@)),
                        i <= n,
                        forall|j: int| 0 <= j < i ==> self.root()[j] == texts(comps@)[j],
                    decreases n - i,
                {
                    if self.root_components[i] != comps[i] {
                        proof {
                            let rt = self.root();
                            let ct = texts(comps@);
                            assert(rt[i as int] != ct[i as int]);
                            if rt.is_prefix_of(ct) {
                                assert(ct.subrange(0, rt.len() as int)[i as int] == ct[i as int]);
                            }
                        }
                        return Err(PathError::OutsideRoot);
                    }
                    i = i + 1;
                }
                assert(self.root() =~= texts(comps@).take(n as int));
                Ok(comps)
            },
        }
    }

    /// The real path that `virtual_path` names: the root joined with the virtual path's
    /// normal form. Fails unless the virtual path begins with `/`, and when a `..`
    /// would climb above the root.
    pub fn to_real_path(&self, virtual_path: &str) -> (r: Result<String, PathError>)
        ensures
            path_view(r) == real_of(self.root(), virtual_path@),
    {
        let cs = crate::path::chars_of(virtual_path);
        if cs.len() == 0 || cs[0] != '/' {
            return Err(PathError::NotAbsolute);
        }
        match parse_components(virtual_path) {
            None => Err(PathError::Escapes),
            Some(comps) => {
                let mut out = String::new();
                push_components(&mut out, &self.root_components, 0);
                push_components(&mut out, &comps, 0);
                proof {
                    let a = self.root();
                    let b = texts(comps@);
                    assert(texts(self.root_components@).skip(0) =~= a);
                    assert(b.skip(0) =~= b);
                    lemma_join_abs_append(a, b);
                    lemma_join_abs_shape(a + b);
                    assert(out@ =~= join_abs(a + b));
                }
                if out.unicode_len() == 0 {

                    assert((self.root() + texts(comps@)).len() == 0);
                    Ok(root_text())
                } else {
                    assert((self.root() + texts(comps@)).len() > 0);
                    assert(out@ == render(self.root() + texts(comps@)));
                    Ok(out)
                }
            },
        }
    }

    /// Checks, without converting, that `real_path` lies under the root.
    pub fn verify_real_path(&self, real_path: &str) -> (r: Result<(), PathError>)
        ensures
            r matches Ok(_) <==> inside_of(self.root(), real_path@) is Ok,
            r matches Err(e) ==> inside_of(self.root(), real_path@) == Err::<Seq<Seq<char>>, PathError>(e),
    {
        match self.components_inside(real_path) {
            Ok(_) => Ok(()),
            Err(e) => Err(e),
        }
    }
}

/// Every real path that `to_real_path` produces begins with the root, followed by
/// `/` unless it is the root itself, and passes the escape check.
pub proof fn lemma_real_paths_stay_inside(vr: &VirtualRoot, v: Seq<char>)
    requires
        valid_components(vr.root()),
    ensures
        real_of(vr.root(), v) matches Ok(r) ==> {
            &&& render(vr.root()).is_prefix_of(r)
            &&& (vr.root().len() > 0 && r != render(vr.root())) ==> (render(vr.root()) + seq!['/']).is_prefix_of(r)
            &&& inside_of(vr.root(), r) is Ok
        },
{
    if let Ok(r) = real_of(vr.root(), v) {
        let c = components(v)->0;
        lemma_render_prefix(vr.root(), c);
        if c.len() == 0 {
            assert(vr.root() + c =~= vr.root());
        }
        lemma_components_valid(v);
        lemma_valid_append(vr.root(), c);
        lemma_parse_render(vr.root() + c);
        lemma_render_absolute_of(vr.root() + c);
        assert(vr.root().is_prefix_of(vr.root() + c)) by {
            assert((vr.root() + c).take(vr.root().len() as int) =~= vr.root());
        }
    }
}

proof fn lemma_render_absolute_of(c: Seq<Seq<char>>)
    ensures
        is_absolute(render(c)),
{
    crate::path::lemma_render_absolute(c);
}

/// Converting a virtual path to a real one and back gives the virtual path's normal
/// form, which names the same real path.
pub proof fn lemma_virtual_real_round_trip(vr: &VirtualRoot, v: Seq<char>)
    requires
        valid_components(vr.root()),
    ensures
        real_of(vr.root(), v) matches Ok(r) ==> {
            &&& virtual_of(vr.root(), r) == Ok::<Seq<char>, PathError>(render(components(v)->0))
            &&& real_of(vr.root(), render(components(v)->0)) == Ok::<Seq<char>, PathError>(r)
        },
{
    if let Ok(r) = real_of(vr.root(), v) {
        let root = vr.root();
        let c = components(v)->0;
        lemma_components_valid(v);
        lemma_valid_append(root, c);
        lemma_parse_render(root + c);
        lemma_parse_render(c);
        lemma_render_absolute_of(root + c);
        lemma_render_absolute_of(c);
        assert(root.is_prefix_of(root + c)) by {
            assert((root + c).take(root.len() as int) =~= root);
        }
        assert((root + c).skip(root.len() as int) =~= c);
    }
}

/// Converting a real path under the root to a virtual one and back gives the real
/// path's normal form; a real path already in normal form comes back unchanged.
pub proof fn lemma_real_virtual_round_trip(vr: &VirtualRoot, p: Seq<char>)
    ensures
        virtual_of(vr.root(), p) matches Ok(v) ==> {
            &&& real_of(vr.root(), v) == Ok::<Seq<char>, PathError>(render(components(p)->0))
            &&& p == render(components(p)->0) ==> real_of(vr.root(), v) == Ok::<Seq<char>, PathError>(p)
        },
{
    if let Ok(v) = virtual_of(vr.root(), p) {
        let root = vr.root();
        let c = components(p)->0;
        let rest = c.skip(root.len() as int);
        lemma_components_valid(p);
        assert(valid_components(rest)) by {
            assert forall|i: int| 0 <= i < rest.len() implies crate::path::valid_component(#[trigger] rest[i]) by {
                assert(rest[i] == c[i + root.len()]);
            }
        }
        lemma_parse_render(rest);
        lemma_render_absolute_of(rest);
        assert(root + rest =~= c);
    }
}

} // verus!
