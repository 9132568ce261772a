use vstd::prelude::*;
use vstd::string::*;

verus! {

/// The view of a relative path: its components, outermost first.
pub type PathView = Seq<Seq<char>>;

/// The forward-slash form of a relative path.
pub open spec fn slash_joined(p: PathView) -> Seq<char>
    decreases p.len(),
{
    if p.len() == 0 {
        Seq::empty()
    } else if p.len() == 1 {
        p[0]
    } else {
        slash_joined(p.drop_last()) + seq!['/'] + p.last()
    }
}

/// A path relative to a scanned root, held as its components so that
/// comparison and depth do not depend on the platform's separator.
#[derive(Debug)]
pub struct RelPath {
    pub components: Vec<String>,
}

impl View for RelPath {
    type V = PathView;

    open spec fn view(&self) -> PathView {
        self.components@.map_values(|c: String| c@)
    }
}

impl RelPath {
    pub fn new(components: Vec<String>) -> (r: RelPath)
        ensures
            r@ == components@.map_values(|c: String| c@),
    {
        RelPath { components }
    }

    /// A copy with the same components.
    pub fn duplicate(&self) -> (r: RelPath)
        ensures
            r@ == self@,
    {
        let mut components: Vec<String> = Vec::new();
        let mut i: usize = 0;
        while i < self.components.len()
            invariant
                0 <= i <= self.components@.len(),
                components@.len() == i,
                forall|k: int| 0 <= k < i ==> components@[k]@ == self.components@[k]@,
            decreases self.components.len() - i,
        {
            components.push(self.components[i].clone());
            i = i + 1;
        }
        let r = RelPath { components };
        assert(r@ =~= self@);
        r
    }

    /// Number of components.
    pub fn depth(&self) -> (r: usize)
        ensures
            r == self@.len(),
    {
        self.components.len()
    }

    pub fn components(&self) -> (r: &Vec<String>)
        ensures
            r@.map_values(|c: String| c@) == self@,
    {
        &self.components
    }

    /// Component-wise equality.
    pub fn same_as(&self, other: &RelPath) -> (r: bool)
        ensures
            r == (self@ == other@),
    {
        if self.components.len() != other.components.len() {
            assert(self@.len() != other@.len());
            return false;
        }
        let n = self.components.len();
        let mut i: usize = 0;
        while i < n
            invariant
                n == self.components.len(),
                n == other.components.len(),
                0 <= i <= n,
                forall|k: int| 0 <= k < i ==> self@[k] == other@[k],
            decreases n - i,
        {
            if self.components[i] != other.components[i] {
                assert(self@[i as int] != other@[i as int]);
                return false;
            }
            i = i + 1;
        }
        assert(self@ =~= other@);
        true
    }

    /// The path with `/` between components, the form that glob patterns see.
    pub fn to_slash_string(&self) -> (r: String)
        ensures
            r@ == slash_joined(self@),
    {
        let mut s = String::new();
        let n = self.components.len();
        let mut i: usize = 0;
        while i < n
            invariant
                n == self.components.len(),
                0 <= i <= n,
                s@ == slash_joined(self@.subrange(0, i as int)),
            decreases n - i,
        {
            proof {
                reveal_strlit("/");
                let pre = self@.subrange(0, i as int + 1);
                assert(pre.drop_last() =~= self@.subrange(0, i as int));
            }
            if i > 0 {
                s.append("/");
            }
            s.append(self.components[i].as_str());
            i = i + 1;
            proof {
                let pre = self@.subrange(0, i as int);
                if i == 1 {
                    assert(s@ =~= pre[0]);
                } else {
                    assert(s@ =~= slash_joined(pre.drop_last()) + seq!['/'] + pre.last());
                }
            }
        }
        assert(self@.subrange(0, n as int) =~= self@);
        s
    }
}

/// Whether `p` occurs in `v`, by view.
pub fn contains_path(v: &Vec<RelPath>, p: &RelPath) -> (r: bool)
    ensures
        r == exists|k: int| 0 <= k < v@.len() && v@[k]@ == p@,
{
    let mut i: usize = 0;
    while i < v.len()
        invariant
            0 <= i <= v@.len(),
            forall|k: int| 0 <= k < i ==> v@[k]@ != p@,
        decreases v.len() - i,
    {
        if v[i].same_as(p) {
            return true;
        }
        i = i + 1;
    }
    false
}

} // verus!
