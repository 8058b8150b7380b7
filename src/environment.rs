use vstd::prelude::*;
use vstd::string::*;
use crate::object::Object;

verus! {

/// The model of an environment: every binding ever made, as (frame, name,
/// value) in the order made, and the parent of each frame. Frame `0` is the
/// global frame.
pub struct EnvView {
    pub bindings: Seq<(usize, Seq<char>, Object)>,
    pub parents: Seq<Option<usize>>,
}

/// The latest binding of `name` made in frame `f` among `bs`.
pub open spec fn frame_lookup(bs: Seq<(usize, Seq<char>, Object)>, f: usize, name: Seq<char>) -> Option<Object>
    decreases bs.len(),
{
    if bs.len() == 0 {
        None
    } else if bs.last().0 == f && bs.last().1 == name {
        Some(bs.last().2)
    } else {
        frame_lookup(bs.drop_last(), f, name)
    }
}

impl EnvView {
    /// Looks `name` up in frame `f`, then in its parent and so on outward; the
    /// first binding found wins.
    pub open spec fn lookup(self, f: usize, name: Seq<char>) -> Option<Object>
        decreases f,
    {
        match frame_lookup(self.bindings, f, name) {
            Some(v) => Some(v),
            None => {
                if f < self.parents.len() && self.parents[f as int] is Some
                    && self.parents[f as int]->0 < f {
                    self.lookup(self.parents[f as int]->0, name)
                } else {
                    None
                }
            },
        }
    }

    /// Binds `name` to `v` in frame `f`, shadowing earlier bindings there.
    pub open spec fn bind(self, f: usize, name: Seq<char>, v: Object) -> EnvView {
        EnvView { bindings: self.bindings.push((f, name, v)), parents: self.parents }
    }

    /// Adds a frame whose parent is `p`; its index is the number of frames
    /// before.
    pub open spec fn enclose(self, p: usize) -> EnvView {
        EnvView { bindings: self.bindings, parents: self.parents.push(Some(p)) }
    }

    /// The environment with only an empty global frame.
    pub open spec fn empty() -> EnvView {
        EnvView { bindings: Seq::empty(), parents: seq![None] }
    }
}

/// Environment frames held in one arena and addressed by index. A closure
/// refers to its frame by index, so frames are shared without copying, and a
/// binding made after a closure was created is visible to it.
pub struct Environment {
    bindings: Vec<(usize, String, Object)>,
    parents: Vec<Option<usize>>,
}

impl View for Environment {
    type V = EnvView;

    closed spec fn view(&self) -> EnvView {
        EnvView {
            bindings: self.bindings@.map_values(|b: (usize, String, Object)| (b.0, b.1@, b.2)),
            parents: self.parents@,
        }
    }
}

impl Environment {
    /// An environment with an empty global frame.
    pub fn new() -> (r: Environment)
        ensures
            r@ == EnvView::empty(),
    {
        let mut parents: Vec<Option<usize>> = Vec::new();
        parents.push(None);
        let r = Environment { bindings: Vec::new(), parents };
        proof {
            assert(r@.bindings =~= Seq::empty());
            assert(r@.parents =~= seq![None]);
        }
        r
    }

    /// Drops every binding and frame, leaving an empty global frame.
    pub fn reset(&mut self)
        ensures
            final(self)@ == EnvView::empty(),
    {
        *self = Environment::new();
    }

    /// The number of frames.
    pub fn frame_count(&self) -> (r: usize)
        ensures
            r == self@.parents.len(),
    {
        self.parents.len()
    }

    /// Looks `name` up in the global frame.
    pub fn get(&self, name: &str) -> (r: Option<Object>)
        ensures
            r == self@.lookup(0, name@),
    {
        let n = String::from_str(name);
        self.lookup(0, &n)
    }

    /// Binds `name` to `val` in the global frame.
    pub fn set(&mut self, name: String, val: Object)
        ensures
            final(self)@ == old(self)@.bind(0, name@, val),
    {
        self.bind(0, name, val);
    }

    fn find_in_frame(&self, f: usize, name: &String) -> (r: Option<Object>)
        ensures
            r == frame_lookup(self@.bindings, f, name@),
    {
        let ghost bs = self@.bindings;
        let mut j = self.bindings.len();
        proof {
            assert(bs.subrange(0, j as int) =~= bs);
        }
        while j > 0
            invariant
                j <= self.bindings@.len(),
                bs == self@.bindings,
                frame_lookup(bs, f, name@) == frame_lookup(bs.subrange(0, j as int), f, name@),
            decreases j,
        {
            let b = &self.bindings[j - 1];
            proof {
                assert(bs.subrange(0, j as int).drop_last() =~= bs.subrange(0, j - 1));
            }
            if b.0 == f && b.1 == *name {
                return Some(b.2.copy());
            }
            j = j - 1;
        }
        None
    }

    /// Looks `name` up from frame `f` outward.
    pub fn lookup(&self, f: usize, name: &String) -> (r: Option<Object>)
        ensures
            r == self@.lookup(f, name@),
    {
        let mut cur = f;
        loop
            invariant
                self@.lookup(f, name@) == self@.lookup(cur, name@),
            decreases cur,
        {
            match self.find_in_frame(cur, name) {
                Some(v) => {
                    return Some(v);
                },
                None => {},
            }
            if cur < self.parents.len() {
                match self.parents[cur] {
                    Some(p) => {
                        if p < cur {
                            cur = p;
                        } else {
                            return None;
                        }
                    },
                    None => {
                        return None;
                    },
                }
            } else {
                return None;
            }
        }
    }

    /// Binds `name` to `v` in frame `f`.
    pub fn bind(&mut self, f: usize, name: String, v: Object)
        ensures
            final(self)@ == old(self)@.bind(f, name@, v),
    {
        self.bindings.push((f, name, v));
        proof {
            assert(final(self)@.bindings =~= old(self)@.bindings.push((f, name@, v)));
        }
    }

    /// Adds a frame whose parent is `p` and returns its index.
    pub fn enclose(&mut self, p: usize) -> (r: usize)
        ensures
            r == old(self)@.parents.len(),
            final(self)@ == old(self)@.enclose(p),
    {
        let r = self.parents.len();
        self.parents.push(Some(p));
        proof {
            assert(final(self)@.bindings =~= old(self)@.bindings);
        }
        r
    }
}

} // verus!
