//! Filesystem paths, modelled as component lists.
//!
//! The core never touches the real filesystem; it reasons about paths as
//! sequences of plain components, absolute or relative.  The root directory
//! is the absolute path with no components.
use vstd::prelude::*;

verus! {

use crate::text::chars_to_string;
use crate::text::str_to_chars;
use vstd::string::StringExecFns;

/// The components joined with `/` separators, without a leading separator.
pub open spec fn join_slash(m: Seq<Seq<char>>) -> Seq<char>
    decreases m.len(),
{
    if m.len() == 0 {
        Seq::empty()
    } else if m.len() == 1 {
        m[0]
    } else {
        m[0] + seq!['/'] + join_slash(m.drop_first())
    }
}

/// The textual form of a path: a leading `/` exactly when it is absolute.
pub open spec fn spec_render(absolute: bool, m: Seq<Seq<char>>) -> Seq<char> {
    if absolute {
        seq!['/'] + join_slash(m)
    } else {
        join_slash(m)
    }
}

/// Appending one component appends `/` and the component (or is the component
/// alone when the sequence was empty).
pub proof fn lemma_join_slash_push(m: Seq<Seq<char>>, c: Seq<char>)
    ensures
        join_slash(m.push(c)) == if m.len() == 0 {
            c
        } else {
            join_slash(m) + seq!['/'] + c
        },
    decreases m.len(),
{
    reveal_with_fuel(join_slash, 3);
    if m.len() == 0 {
        assert(m.push(c) =~= seq![c]);
    } else if m.len() == 1 {
        assert(m.push(c).len() == 2);
        assert(m.push(c)[0] == m[0]);
        assert(m.push(c).drop_first() =~= seq![c]);
    } else {
        lemma_join_slash_push(m.drop_first(), c);
        assert(m.push(c).drop_first() =~= m.drop_first().push(c));
        assert(m.push(c)[0] == m[0]);
        assert(m[0] + seq!['/'] + (join_slash(m.drop_first()) + seq!['/'] + c) =~= (m[0]
            + seq!['/'] + join_slash(m.drop_first())) + seq!['/'] + c);
    }
}

/// A single well-formed path component: a non-empty name with no separator.
pub open spec fn wf_component(c: Seq<char>) -> bool {
    c.len() > 0 && forall|i: int| 0 <= i < c.len() ==> c[i] != '/'
}

/// Every component of the sequence is well formed.
pub open spec fn wf_components(m: Seq<Seq<char>>) -> bool {
    forall|i: int| 0 <= i < m.len() ==> wf_component(#[trigger] m[i])
}

/// `p` equals `q` or is an ancestor of `q` (componentwise prefix).
pub open spec fn is_prefix_of(p: Seq<Seq<char>>, q: Seq<Seq<char>>) -> bool {
    p.len() <= q.len() && p == q.subrange(0, p.len() as int)
}

/// No two adjacent separators anywhere in the text.
pub open spec fn no_adjacent_slashes(s: Seq<char>) -> bool {
    forall|i: int| 0 <= i < s.len() - 1 ==> !((#[trigger] s[i]) == '/' && s[i + 1] == '/')
}

/// Shape of a joined component list: non-empty segments only — no leading or
/// trailing separator and no two adjacent separators.
pub proof fn lemma_join_slash_shape(m: Seq<Seq<char>>)
    requires
        wf_components(m),
    ensures
        m.len() == 0 <==> join_slash(m).len() == 0,
        join_slash(m).len() > 0 ==> join_slash(m)[0] != '/',
        join_slash(m).len() > 0 ==> join_slash(m)[join_slash(m).len() - 1] != '/',
        no_adjacent_slashes(join_slash(m)),
    decreases m.len(),
{
    reveal_with_fuel(join_slash, 2);
    if m.len() == 0 {
    } else if m.len() == 1 {
        assert(wf_component(m[0]));
    } else {
        let m0 = m.drop_last();
        let c = m.last();
        assert(m =~= m0.push(c));
        assert(wf_components(m0));
        assert(wf_component(c));
        lemma_join_slash_shape(m0);
        lemma_join_slash_push(m0, c);
        let a = join_slash(m0);
        let s = join_slash(m);
        assert(s == a + seq!['/'] + c);
        assert(s.len() == a.len() + 1 + c.len());
        assert(forall|i: int| 0 <= i < a.len() ==> s[i] == a[i]);
        assert(s[a.len() as int] == '/');
        assert(forall|j: int| 0 <= j < c.len() ==> s[a.len() + 1 + j] == c[j]);
        assert(s[s.len() - 1] == c[c.len() - 1]);
        assert forall|i: int| 0 <= i < s.len() - 1 implies !((#[trigger] s[i]) == '/' && s[i + 1]
            == '/') by {
            if i + 1 < a.len() {
            } else if i + 1 == a.len() {
                assert(s[i] == a[i]);
            } else if i == a.len() {
                assert(s[i + 1] == c[0]);
            } else {
                assert(s[i] == c[i - a.len() - 1]);
            }
        }
    }
}

/// Shape of a rendered path: it starts with `/` exactly when absolute, has no
/// empty segment, and ends with `/` only when it is the root itself.
pub proof fn lemma_render_shape(b: bool, m: Seq<Seq<char>>)
    requires
        wf_components(m),
    ensures
        b ==> spec_render(b, m).len() >= 1 && spec_render(b, m)[0] == '/',
        !b && m.len() > 0 ==> spec_render(b, m)[0] != '/',
        !b ==> (m.len() == 0 <==> spec_render(b, m).len() == 0),
        no_adjacent_slashes(spec_render(b, m)),
        spec_render(b, m).len() > 0 && spec_render(b, m)[spec_render(b, m).len() - 1] == '/' ==> b
            && m.len() == 0,
{
    lemma_join_slash_shape(m);
    let js = join_slash(m);
    if b {
        let s = spec_render(b, m);
        assert(s == seq!['/'] + js);
        assert(s[0] == '/');
        assert(forall|j: int| 0 <= j < js.len() ==> s[j + 1] == js[j]);
    }
}

/// Joining well-formed components is injective.
pub proof fn lemma_join_slash_injective(m1: Seq<Seq<char>>, m2: Seq<Seq<char>>)
    requires
        wf_components(m1),
        wf_components(m2),
        join_slash(m1) == join_slash(m2),
    ensures
        m1 == m2,
    decreases m1.len(),
{
    reveal_with_fuel(join_slash, 2);
    lemma_join_slash_shape(m1);
    lemma_join_slash_shape(m2);
    let js = join_slash(m1);
    if m1.len() == 0 || m2.len() == 0 {
        assert(m1 =~= m2);
    } else {
        let a1 = m1[0];
        let a2 = m2[0];
        if m1.len() == 1 && m2.len() == 1 {
            assert(m1 =~= m2);
        } else if m1.len() == 1 && m2.len() >= 2 {
            assert(js == a1);
            assert(js == a2 + seq!['/'] + join_slash(m2.drop_first()));
            assert(js[a2.len() as int] == '/');
            assert(wf_component(a1));
            assert(false);
        } else if m2.len() == 1 && m1.len() >= 2 {
            assert(js == a2);
            assert(js == a1 + seq!['/'] + join_slash(m1.drop_first()));
            assert(js[a1.len() as int] == '/');
            assert(wf_component(a2));
            assert(false);
        } else {
            let t1 = join_slash(m1.drop_first());
            let t2 = join_slash(m2.drop_first());
            assert(js == a1 + seq!['/'] + t1);
            assert(js == a2 + seq!['/'] + t2);
            assert(forall|i: int| 0 <= i < a1.len() ==> js[i] == a1[i]);
            assert(forall|i: int| 0 <= i < a2.len() ==> js[i] == a2[i]);
            assert(js[a1.len() as int] == '/');
            assert(js[a2.len() as int] == '/');
            assert(wf_component(a1));
            assert(wf_component(a2));
            if a1.len() < a2.len() {
                assert(js[a1.len() as int] == a2[a1.len() as int]);
                assert(false);
            }
            if a2.len() < a1.len() {
                assert(js[a2.len() as int] == a1[a2.len() as int]);
                assert(false);
            }
            assert(a1 =~= a2);
            assert(t1 =~= t2) by {
                assert(forall|j: int|
                    0 <= j < t1.len() ==> js[a1.len() + 1 + j] == t1[j] && js[a1.len() + 1 + j]
                        == t2[j]);
            }
            assert(wf_components(m1.drop_first()));
            assert(wf_components(m2.drop_first()));
            lemma_join_slash_injective(m1.drop_first(), m2.drop_first());
            assert(m1 =~= m2) by {
                assert(forall|i: int|
                    1 <= i < m1.len() ==> m1[i] == m1.drop_first()[i - 1] && m2[i]
                        == m2.drop_first()[i - 1]);
            }
        }
    }
}

/// Rendering well-formed paths is injective.
pub proof fn lemma_render_injective(b1: bool, m1: Seq<Seq<char>>, b2: bool, m2: Seq<Seq<char>>)
    requires
        wf_components(m1),
        wf_components(m2),
        spec_render(b1, m1) == spec_render(b2, m2),
    ensures
        b1 == b2,
        m1 == m2,
{
    lemma_render_shape(b1, m1);
    lemma_render_shape(b2, m2);
    let s = spec_render(b1, m1);
    if b1 != b2 {
        if b1 {
            assert(s[0] == '/');
            if m2.len() == 0 {
                assert(s.len() == 0);
            } else {
                assert(s[0] != '/');
            }
            assert(false);
        } else {
            assert(spec_render(b2, m2)[0] == '/');
            if m1.len() == 0 {
                assert(s.len() == 0);
            } else {
                assert(s[0] != '/');
            }
            assert(false);
        }
    }
    if b1 {
        assert(seq!['/'] + join_slash(m1) == seq!['/'] + join_slash(m2));
        assert(join_slash(m1) =~= join_slash(m2)) by {
            assert(forall|j: int|
                0 <= j < join_slash(m1).len() ==> join_slash(m1)[j] == (seq!['/'] + join_slash(
                    m1,
                ))[j + 1] && join_slash(m2)[j] == (seq!['/'] + join_slash(m2))[j + 1]);
        }
    }
    lemma_join_slash_injective(m1, m2);
}

/// The separator that follows an already-joined component list when more
/// components are coming: nothing while the list is still empty.
pub open spec fn sep_after(m: Seq<Seq<char>>) -> Seq<char> {
    if m.len() > 0 {
        seq!['/']
    } else {
        Seq::empty()
    }
}

/// A filesystem path: a flag for absoluteness plus a list of components.
#[derive(Debug)]
pub struct FsPath {
    pub absolute: bool,
    pub components: Vec<String>,
}

/// Whether a string is usable as a single path component.
pub fn check_component(s: &String) -> (b: bool)
    ensures
        b == wf_component(s@),
{
    let v = str_to_chars(s.as_str());
    let n = v.len();
    if n == 0 {
        return false;
    }
    let mut i: usize = 0;
    while i < n
        invariant
            i <= n,
            n == v@.len(),
            v@ == s@,
            forall|j: int| 0 <= j < i ==> v@[j] != '/',
        decreases n - i,
    {
        if v[i] == '/' {
            return false;
        }
        i = i + 1;
    }
    true
}

/// Clones a vector of strings, keeping the exact sequence of values.
pub fn clone_string_vec(v: &Vec<String>) -> (r: Vec<String>)
    ensures
        r@ == v@,
{
    let mut r: Vec<String> = Vec::new();
    let n = v.len();
    let mut i: usize = 0;
    while i < n
        invariant
            i <= n,
            n == v@.len(),
            r@ == v@.subrange(0, i as int),
        decreases n - i,
    {
        r.push(v[i].clone());
        proof {
            assert(r@ =~= v@.subrange(0, i + 1 as int));
        }
        i = i + 1;
    }
    proof {
        assert(v@.subrange(0, n as int) =~= v@);
    }
    r
}

impl FsPath {
    /// The mathematical value of the path: its components' character sequences.
    pub open spec fn model(&self) -> Seq<Seq<char>> {
        self.components.deep_view()
    }

    pub open spec fn wf(&self) -> bool {
        wf_components(self.model())
    }

    /// Spec-level path equality: same absoluteness, same components.
    pub open spec fn same_path(&self, other: &FsPath) -> bool {
        self.absolute == other.absolute && self.model() == other.model()
    }

    /// The root directory: absolute, no components.
    pub fn root() -> (r: FsPath)
        ensures
            r.absolute,
            r.model() == Seq::<Seq<char>>::empty(),
            r.wf(),
    {
        let r = FsPath { absolute: true, components: Vec::new() };
        proof {
            assert(r.model() =~= Seq::<Seq<char>>::empty());
        }
        r
    }

    /// The empty relative path.
    pub fn empty_relative() -> (r: FsPath)
        ensures
            !r.absolute,
            r.model() == Seq::<Seq<char>>::empty(),
            r.wf(),
    {
        let r = FsPath { absolute: false, components: Vec::new() };
        proof {
            assert(r.model() =~= Seq::<Seq<char>>::empty());
        }
        r
    }

    /// Builds a path directly from its parts.
    pub fn new(absolute: bool, components: Vec<String>) -> (r: FsPath)
        ensures
            r.absolute == absolute,
            r.model() == components.deep_view(),
    {
        FsPath { absolute, components }
    }

    pub fn depth(&self) -> (n: usize)
        ensures
            n == self.model().len(),
    {
        self.components.len()
    }

    /// The same path value, freshly allocated.
    pub fn clone_path(&self) -> (r: FsPath)
        ensures
            r.same_path(self),
            r.absolute == self.absolute,
            r.model() == self.model(),
    {
        let r = FsPath { absolute: self.absolute, components: clone_string_vec(&self.components) };
        proof {
            assert(r.model() =~= self.model());
        }
        r
    }

    /// The path extended by one more component.
    pub fn child(&self, name: &str) -> (r: FsPath)
        ensures
            r.absolute == self.absolute,
            r.model() == self.model().push(name@),
    {
        let mut components = clone_string_vec(&self.components);
        components.push(name.to_owned());
        let r = FsPath { absolute: self.absolute, components };
        proof {
            assert(r.model() =~= self.model().push(name@));
        }
        r
    }

    /// The containing directory, or `None` for the root / the empty path.
    pub fn parent(&self) -> (r: Option<FsPath>)
        ensures
            match r {
                Some(p) => self.model().len() > 0 && p.absolute == self.absolute && p.model()
                    == self.model().drop_last(),
                None => self.model().len() == 0,
            },
    {
        if self.components.len() == 0 {
            None
        } else {
            let mut components = clone_string_vec(&self.components);
            components.pop();
            let p = FsPath { absolute: self.absolute, components };
            proof {
                assert(p.model() =~= self.model().drop_last());
            }
            Some(p)
        }
    }

    /// The final component, or `None` for the root / the empty path.
    pub fn file_name(&self) -> (r: Option<&String>)
        ensures
            match r {
                Some(s) => self.model().len() > 0 && s@ == self.model().last(),
                None => self.model().len() == 0,
            },
    {
        if self.components.len() == 0 {
            None
        } else {
            Some(&self.components[self.components.len() - 1])
        }
    }

    /// Joins another path onto this one; an absolute right-hand side replaces
    /// the left-hand side, as the standard path join does.
    pub fn join(&self, other: &FsPath) -> (r: FsPath)
        ensures
            other.absolute ==> r.absolute && r.model() == other.model(),
            !other.absolute ==> r.absolute == self.absolute && r.model() == self.model()
                + other.model(),
    {
        if other.absolute {
            other.clone_path()
        } else {
            let mut components = clone_string_vec(&self.components);
            let n = other.components.len();
            let mut i: usize = 0;
            while i < n
                invariant
                    i <= n,
                    n == other.components@.len(),
                    components@ == self.components@ + other.components@.subrange(0, i as int),
                decreases n - i,
            {
                components.push(other.components[i].clone());
                proof {
                    assert(components@ =~= self.components@ + other.components@.subrange(
                        0,
                        i + 1 as int,
                    ));
                }
                i = i + 1;
            }
            let r = FsPath { absolute: self.absolute, components };
            proof {
                assert(other.components@.subrange(0, n as int) =~= other.components@);
                assert(r.model() =~= self.model() + other.model());
            }
            r
        }
    }

    /// Whether `base` is this path or one of its ancestors.
    pub fn starts_with(&self, base: &FsPath) -> (b: bool)
        ensures
            b == (self.absolute == base.absolute && is_prefix_of(base.model(), self.model())),
    {
        if self.absolute != base.absolute || base.components.len() > self.components.len() {
            proof {
                if self.absolute == base.absolute {
                    assert(!is_prefix_of(base.model(), self.model()));
                }
            }
            return false;
        }
        let n = base.components.len();
        let mut i: usize = 0;
        while i < n
            invariant
                i <= n,
                n == base.components@.len(),
                n <= self.components@.len(),
                self.absolute == base.absolute,
                forall|j: int| 0 <= j < i ==> base.model()[j] == self.model()[j],
            decreases n - i,
        {
            if !(base.components[i] == self.components[i]) {
                proof {
                    assert(base.model()[i as int] != self.model()[i as int]);
                    assert(self.model().subrange(0, n as int)[i as int]
                        == self.model()[i as int]);
                    assert(!is_prefix_of(base.model(), self.model()));
                }
                return false;
            }
            i = i + 1;
        }
        proof {
            assert(base.model() =~= self.model().subrange(0, n as int));
        }
        true
    }

    /// Strips an ancestor prefix, yielding the relative remainder.
    pub fn strip_prefix(&self, base: &FsPath) -> (r: Option<FsPath>)
        ensures
            match r {
                Some(rel) => {
                    &&& self.absolute == base.absolute
                    &&& is_prefix_of(base.model(), self.model())
                    &&& !rel.absolute
                    &&& rel.model() == self.model().subrange(
                        base.model().len() as int,
                        self.model().len() as int,
                    )
                },
                None => !(self.absolute == base.absolute && is_prefix_of(
                    base.model(),
                    self.model(),
                )),
            },
    {
        if !self.starts_with(base) {
            return None;
        }
        let n = self.components.len();
        let k = base.components.len();
        let mut components: Vec<String> = Vec::new();
        let mut i: usize = k;
        while i < n
            invariant
                k <= i <= n,
                n == self.components@.len(),
                components@ == self.components@.subrange(k as int, i as int),
            decreases n - i,
        {
            components.push(self.components[i].clone());
            proof {
                assert(components@ =~= self.components@.subrange(k as int, i + 1 as int));
            }
            i = i + 1;
        }
        let rel = FsPath { absolute: false, components };
        proof {
            assert(rel.model() =~= self.model().subrange(
                base.model().len() as int,
                self.model().len() as int,
            ));
        }
        Some(rel)
    }

    /// The textual form of the path, with `/` separators.
    pub fn to_string(&self) -> (r: String)
        ensures
            r@ == spec_render(self.absolute, self.model()),
    {
        let mut r = String::new();
        proof {
            reveal_strlit("/");
            assert(self.model().subrange(0, 0) =~= Seq::<Seq<char>>::empty());
        }
        if self.absolute {
            r.append("/");
            proof {
                assert(r@ =~= seq!['/'] + join_slash(Seq::<Seq<char>>::empty()));
            }
        }
        let n = self.components.len();
        let mut i: usize = 0;
        while i < n
            invariant
                i <= n,
                n == self.components@.len(),
                r@ == spec_render(self.absolute, self.model().subrange(0, i as int)),
            decreases n - i,
        {
            proof {
                reveal_strlit("/");
            }
            if i > 0 {
                r.append("/");
            }
            r.append(self.components[i].as_str());
            proof {
                let pre = self.model().subrange(0, i as int);
                let c = self.model()[i as int];
                assert(self.model().subrange(0, i + 1 as int) =~= pre.push(c));
                lemma_join_slash_push(pre, c);
                if i == 0 {
                    assert(r@ =~= spec_render(self.absolute, pre.push(c)));
                } else {
                    if self.absolute {
                        assert(r@ =~= seq!['/'] + (join_slash(pre) + seq!['/'] + c));
                    } else {
                        assert(r@ =~= join_slash(pre) + seq!['/'] + c);
                    }
                }
            }
            i = i + 1;
        }
        proof {
            assert(self.model().subrange(0, n as int) =~= self.model());
        }
        r
    }

    /// Parses the textual form of a path.  Accepts exactly the renderings of
    /// well-formed paths: a leading `/` marks an absolute path, components
    /// may not be empty, and only the root itself ends with a separator.
    pub fn from_string(s: &str) -> (r: Option<FsPath>)
        ensures
            r matches Some(p) ==> p.wf() && s@ == spec_render(p.absolute, p.model()),
            forall|b: bool, m: Seq<Seq<char>>|
                wf_components(m) && s@ == spec_render(b, m) ==> r is Some,
    {
        let v = str_to_chars(s);
        let n = v.len();
        let absolute = n > 0 && v[0] == '/';
        let start: usize = if absolute {
            1
        } else {
            0
        };
        let mut comps: Vec<String> = Vec::new();
        let mut cur: Vec<char> = Vec::new();
        let mut i: usize = start;
        proof {
            assert(v@.subrange(start as int, start as int) =~= Seq::<char>::empty());
            assert(join_slash(comps.deep_view()) + sep_after(comps.deep_view()) + cur@
                =~= Seq::<char>::empty());
        }
        while i < n
            invariant
                start <= i <= n,
                n == v@.len(),
                v@ == s@,
                absolute == (v@.len() > 0 && v@[0] == '/'),
                start == if absolute {
                    1int
                } else {
                    0int
                },
                wf_components(comps.deep_view()),
                forall|j: int| 0 <= j < cur@.len() ==> cur@[j] != '/',
                v@.subrange(start as int, i as int) == join_slash(comps.deep_view()) + sep_after(
                    comps.deep_view(),
                ) + cur@,
            decreases n - i,
        {
            let ghost consumed = v@.subrange(start as int, i as int);
            let ghost dv = comps.deep_view();
            let c = v[i];
            if c == '/' {
                if cur.len() == 0 {
                    proof {
                        assert(consumed =~= join_slash(dv) + sep_after(dv));
                        assert forall|b: bool, m: Seq<Seq<char>>|
                            wf_components(m) implies s@ != spec_render(b, m) by {
                            if s@ == spec_render(b, m) {
                                lemma_render_shape(b, m);
                                if dv.len() == 0 {
                                    lemma_join_slash_shape(dv);
                                    assert(consumed.len() == 0);
                                    assert(i == start);
                                    assert(v@[i as int] == '/');
                                    assert(absolute);
                                    assert(s@[0] == '/' && s@[1] == '/');
                                    assert(false);
                                } else {
                                    assert(consumed[consumed.len() - 1] == '/');
                                    assert(consumed[consumed.len() - 1] == v@[i - 1]);
                                    assert(s@[i - 1] == '/' && s@[i as int] == '/');
                                    assert(false);
                                }
                            }
                        }
                    }
                    return None;
                }
                let comp = chars_to_string(&cur);
                comps.push(comp);
                cur = Vec::new();
                proof {
                    let dv2 = comps.deep_view();
                    assert(dv2 =~= dv.push(comp@));
                    lemma_join_slash_push(dv, comp@);
                    assert(v@.subrange(start as int, i + 1 as int) =~= consumed.push('/'));
                    assert(v@.subrange(start as int, i + 1 as int) =~= join_slash(dv2) + sep_after(
                        dv2,
                    ) + Seq::<char>::empty());
                }
            } else {
                cur.push(c);
                proof {
                    assert(v@.subrange(start as int, i + 1 as int) =~= consumed.push(c));
                    assert(v@.subrange(start as int, i + 1 as int) =~= join_slash(dv) + sep_after(
                        dv,
                    ) + cur@);
                }
            }
            i = i + 1;
        }
        let ghost consumed = v@.subrange(start as int, n as int);
        let ghost dv = comps.deep_view();
        if cur.len() > 0 {
            let comp = chars_to_string(&cur);
            comps.push(comp);
            let p = FsPath { absolute, components: comps };
            proof {
                let dv2 = p.model();
                assert(dv2 =~= dv.push(comp@));
                lemma_join_slash_push(dv, comp@);
                assert(join_slash(dv2) =~= consumed);
                if absolute {
                    assert(s@ =~= seq!['/'] + consumed);
                } else {
                    assert(s@ =~= consumed);
                }
                assert(s@ == spec_render(p.absolute, p.model()));
            }
            Some(p)
        } else if comps.len() > 0 {
            proof {
                assert(consumed =~= join_slash(dv) + sep_after(dv));
                lemma_join_slash_shape(dv);
                assert(consumed.len() >= 2);
                assert(consumed[consumed.len() - 1] == '/');
                assert(s@[n - 1] == '/');
                assert forall|b: bool, m: Seq<Seq<char>>|
                    wf_components(m) implies s@ != spec_render(b, m) by {
                    if s@ == spec_render(b, m) {
                        lemma_render_shape(b, m);
                        assert(b && m.len() == 0);
                        assert(s@.len() == 1);
                        assert(n as int - start >= 2);
                        assert(false);
                    }
                }
            }
            None
        } else {
            let p = FsPath { absolute, components: comps };
            proof {
                assert(consumed =~= Seq::<char>::empty());
                assert(p.model() =~= Seq::<Seq<char>>::empty());
                if absolute {
                    assert(s@ =~= seq!['/'] + consumed);
                    assert(s@ =~= seq!['/']);
                } else {
                    assert(s@ =~= consumed);
                }
                assert(s@ == spec_render(p.absolute, p.model()));
            }
            Some(p)
        }
    }

    /// Whether every component of this path is well formed.
    pub fn check_wf(&self) -> (b: bool)
        ensures
            b == self.wf(),
    {
        let n = self.components.len();
        let mut i: usize = 0;
        while i < n
            invariant
                i <= n,
                n == self.components@.len(),
                forall|j: int| 0 <= j < i ==> wf_component(#[trigger] self.model()[j]),
            decreases n - i,
        {
            if !check_component(&self.components[i]) {
                proof {
                    assert(self.model()[i as int] == self.components@[i as int]@);
                }
                return false;
            }
            i = i + 1;
        }
        true
    }

    /// Whether the two paths are the same value.
    pub fn path_eq(&self, other: &FsPath) -> (b: bool)
        ensures
            b == self.same_path(other),
    {
        if self.absolute != other.absolute || self.components.len() != other.components.len() {
            proof {
                if self.model() == other.model() {
                    assert(self.model().len() == other.model().len());
                }
            }
            return false;
        }
        let n = self.components.len();
        let mut i: usize = 0;
        while i < n
            invariant
                i <= n,
                n == self.components@.len(),
                n == other.components@.len(),
                forall|j: int| 0 <= j < i ==> self.model()[j] == other.model()[j],
            decreases n - i,
        {
            if !(self.components[i] == other.components[i]) {
                proof {
                    assert(self.model()[i as int] != other.model()[i as int]);
                }
                return false;
            }
            i = i + 1;
        }
        proof {
            assert(self.model() =~= other.model());
        }
        true
    }
}

} // verus!
