use vstd::prelude::*;

use crate::text::{join3, same_text};
use crate::value::{Val, Value};

verus! {

/// The bindings of one scope, in the order they were made.
pub type Frame = Seq<(Seq<char>, Val)>;

/// The index of the last binding of `k` in a frame, or -1 when there is none.
pub open spec fn last_index(entries: Frame, k: Seq<char>) -> int
    decreases entries.len(),
{
    if entries.len() == 0 {
        -1
    } else if entries.last().0 == k {
        entries.len() - 1
    } else {
        last_index(entries.drop_last(), k)
    }
}

/// The value bound to `k` in one frame.
pub open spec fn find(entries: Frame, k: Seq<char>) -> Option<Val> {
    let i = last_index(entries, k);
    if 0 <= i < entries.len() {
        Some(entries[i].1)
    } else {
        None
    }
}

/// A frame after `define(k, v)`: the binding is overwritten, or added.
pub open spec fn define_frame(entries: Frame, k: Seq<char>, v: Val) -> Frame {
    let i = last_index(entries, k);
    if 0 <= i < entries.len() {
        entries.update(i, (k, v))
    } else {
        entries.push((k, v))
    }
}

/// The value of `k` in a chain of frames, innermost first.
pub open spec fn chain_lookup(frames: Seq<Frame>, k: Seq<char>) -> Option<Val>
    decreases frames.len(),
{
    if frames.len() == 0 {
        None
    } else {
        match find(frames[0], k) {
            Some(v) => Some(v),
            None => chain_lookup(frames.drop_first(), k),
        }
    }
}

/// A chain after `define(k, v)`: only the innermost frame changes.
pub open spec fn chain_define(frames: Seq<Frame>, k: Seq<char>, v: Val) -> Seq<Frame> {
    frames.update(0, define_frame(frames[0], k, v))
}

/// A chain after `assign(k, v)`: the nearest frame that binds `k` changes.
pub open spec fn chain_assign(frames: Seq<Frame>, k: Seq<char>, v: Val) -> Seq<Frame>
    decreases frames.len(),
{
    if frames.len() == 0 {
        frames
    } else if find(frames[0], k) is Some {
        frames.update(0, define_frame(frames[0], k, v))
    } else {
        seq![frames[0]] + chain_assign(frames.drop_first(), k, v)
    }
}

pub proof fn lemma_last_index_bounds(entries: Frame, k: Seq<char>)
    ensures
        -1 <= last_index(entries, k) < entries.len(),
        last_index(entries, k) >= 0 ==> entries[last_index(entries, k)].0 == k,
    decreases entries.len(),
{
    if entries.len() > 0 && entries.last().0 != k {
        lemma_last_index_bounds(entries.drop_last(), k);
    }
}

pub proof fn lemma_last_index_same_keys(a: Frame, b: Frame, k: Seq<char>)
    requires
        a.len() == b.len(),
        forall|j: int| 0 <= j < a.len() ==> a[j].0 == b[j].0,
    ensures
        last_index(a, k) == last_index(b, k),
    decreases a.len(),
{
    if a.len() > 0 {
        lemma_last_index_same_keys(a.drop_last(), b.drop_last(), k);
    }
}

/// What `define` does to the lookups of one frame.
pub proof fn lemma_find_define(entries: Frame, k: Seq<char>, v: Val, k2: Seq<char>)
    ensures
        find(define_frame(entries, k, v), k2) == if k2 == k { Some(v) } else { find(entries, k2) },
{
    lemma_last_index_bounds(entries, k);
    lemma_last_index_bounds(entries, k2);
    let i = last_index(entries, k);
    let d = define_frame(entries, k, v);
    if 0 <= i {
        lemma_last_index_same_keys(entries, d, k2);
    } else {
        assert(d.drop_last() =~= entries);
        assert(d.last().0 == k);
    }
}

/// What `define` does to the lookups of a chain.
pub proof fn lemma_chain_define(frames: Seq<Frame>, k: Seq<char>, v: Val, k2: Seq<char>)
    requires
        frames.len() > 0,
    ensures
        chain_lookup(chain_define(frames, k, v), k2) == if k2 == k { Some(v) } else { chain_lookup(frames, k2) },
{
    lemma_find_define(frames[0], k, v, k2);
    assert(chain_define(frames, k, v).drop_first() =~= frames.drop_first());
}

/// A lexical scope: its own bindings and the scope that encloses it.
#[derive(Debug)]
pub struct Environment {
    names: Vec<String>,
    values: Vec<Value>,
    enclosing: Option<Box<Environment>>,
}

impl Environment {
    /// The scope that encloses this one.
    pub closed spec fn outer(&self) -> Option<Environment> {
        match &self.enclosing {
            Some(e) => Some(**e),
            None => None,
        }
    }

    /// The bindings of this scope alone.
    pub closed spec fn entries(&self) -> Frame {
        Seq::new(self.names.len() as nat, |i: int| (self.names[i]@, self.values[i]@))
    }

    pub closed spec fn wf(&self) -> bool
        decreases self,
    {
        &&& self.names.len() == self.values.len()
        &&& match &self.enclosing {
            Some(e) => e.wf(),
            None => true,
        }
    }

    /// The frames of the chain, this scope first.
    pub closed spec fn frames(&self) -> Seq<Frame>
        decreases self,
    {
        seq![self.entries()] + match &self.enclosing {
            Some(e) => e.frames(),
            None => Seq::empty(),
        }
    }

    /// The value that `name` reads in this scope.
    pub open spec fn lookup(&self, name: Seq<char>) -> Option<Val> {
        chain_lookup(self.frames(), name)
    }

    pub proof fn lemma_frames_len(&self)
        ensures
            self.frames().len() >= 1,
            self.frames()[0] == self.entries(),
            self.outer() is None ==> self.frames() == seq![self.entries()],
            self.outer() is Some ==> self.frames().drop_first() == self.outer()->0.frames(),
    {
        match &self.enclosing {
            Some(e) => {
                assert(self.frames().drop_first() =~= e.frames());
            },
            None => {
                assert(self.frames() =~= seq![self.entries()]);
            },
        }
    }

    /// An empty root scope.
    pub fn new() -> (r: Self)
        ensures
            r.wf(),
            r.outer() is None,
            r.frames() == seq![Seq::<(Seq<char>, Val)>::empty()],
            forall|k: Seq<char>| r.lookup(k) is None,
    {
        let r = Environment { names: Vec::new(), values: Vec::new(), enclosing: None };
        proof {
            assert(r.entries() =~= Seq::<(Seq<char>, Val)>::empty());
            r.lemma_frames_len();
            assert forall|k: Seq<char>| r.lookup(k) is None by {
                let f = r.frames();
                assert(last_index(f[0], k) == -1);
                assert(f.drop_first().len() == 0);
                assert(chain_lookup(f.drop_first(), k) is None);
            }
        }
        r
    }

    /// An empty scope nested in `enclosing`.
    pub fn new_enclosed(enclosing: Environment) -> (r: Self)
        requires
            enclosing.wf(),
        ensures
            r.wf(),
            r.outer() == Some(enclosing),
            r.frames() == seq![Seq::<(Seq<char>, Val)>::empty()] + enclosing.frames(),
            forall|k: Seq<char>| r.lookup(k) == enclosing.lookup(k),
    {
        let r = Environment { names: Vec::new(), values: Vec::new(), enclosing: Some(Box::new(enclosing)) };
        proof {
            assert(r.entries() =~= Seq::<(Seq<char>, Val)>::empty());
            r.lemma_frames_len();
            assert(r.frames() =~= seq![Seq::<(Seq<char>, Val)>::empty()] + enclosing.frames());
            assert forall|k: Seq<char>| r.lookup(k) == enclosing.lookup(k) by {
                assert(r.frames().drop_first() =~= enclosing.frames());
            }
        }
        r
    }

    /// Ends this scope, handing back the one that encloses it.
    pub fn into_enclosing(self) -> (r: Option<Environment>)
        requires
            self.wf(),
        ensures
            match r {
                Some(e) => self.outer() == Some(e) && e.wf()
                    && e.frames() == self.frames().drop_first(),
                None => self.outer() is None,
            },
    {
        proof {
            self.lemma_frames_len();
        }
        match self.enclosing {
            Some(e) => Some(*e),
            None => None,
        }
    }

    /// The index of the last binding of `name` in this scope.
    fn position(&self, name: &str) -> (r: Option<usize>)
        requires
            self.names.len() == self.values.len(),
        ensures
            match r {
                Some(i) => i == last_index(self.entries(), name@) && i < self.names.len(),
                None => last_index(self.entries(), name@) == -1,
            },
    {
        let mut i: usize = self.names.len();
        proof {
            assert(self.entries().take(i as int) =~= self.entries());
        }
        while i > 0
            invariant
                i <= self.names.len(),
                self.names.len() == self.values.len(),
                last_index(self.entries(), name@) == last_index(self.entries().take(i as int), name@),
            decreases i,
        {
            let ghost t = self.entries().take(i as int);
            assert(t.drop_last() =~= self.entries().take(i - 1));
            if same_text(self.names[i - 1].as_str(), name) {
                return Some(i - 1);
            }
            i = i - 1;
        }
        None
    }

    /// Binds `name` in this scope, overwriting a binding of it here and
    /// shadowing any in enclosing scopes.
    pub fn define(&mut self, name: String, value: Value)
        requires
            old(self).wf(),
        ensures
            final(self).wf(),
            final(self).outer() == old(self).outer(),
            final(self).frames() == chain_define(old(self).frames(), name@, value@),
            forall|k: Seq<char>| final(self).lookup(k)
                == if k == name@ { Some(value@) } else { old(self).lookup(k) },
    {
        let ghost k = name@;
        let ghost v = value@;
        let ghost before = self.entries();
        proof {
            old(self).lemma_frames_len();
            lemma_last_index_bounds(before, k);
        }
        match self.position(name.as_str()) {
            Some(i) => {
                self.values.set(i, value);
                assert(self.entries() =~= before.update(i as int, (k, v)));
            },
            None => {
                self.names.push(name);
                self.values.push(value);
                assert(self.entries() =~= before.push((k, v)));
            },
        }
        proof {
            self.lemma_frames_len();
            assert(self.frames() =~= chain_define(old(self).frames(), k, v));
            assert forall|k2: Seq<char>| self.lookup(k2) == if k2 == k { Some(v) } else { old(self).lookup(k2) } by {
                lemma_chain_define(old(self).frames(), k, v, k2);
            }
        }
    }

    /// The value of the nearest binding of `name`, searching outward.
    pub fn get(&self, name: &str) -> (r: Result<Value, String>)
        requires
            self.wf(),
        ensures
            match r {
                Ok(v) => self.lookup(name@) == Some(v@),
                Err(m) => self.lookup(name@) is None
                    && m@ == "Use of undefined variable '"@ + name@ + "'."@,
            },
        decreases self,
    {
        proof {
            self.lemma_frames_len();
            lemma_last_index_bounds(self.entries(), name@);
        }
        if let Some(i) = self.position(name) {
            return Ok(self.values[i].duplicate());
        }
        match &self.enclosing {
            Some(e) => e.get(name),
            None => {
                proof {
                    assert(self.frames().drop_first().len() == 0);
                }
                Err(join3("Use of undefined variable '", name, "'."))
            },
        }
    }

    /// Overwrites the nearest existing binding of `name`, searching outward;
    /// fails, changing nothing, when no scope of the chain binds it.
    pub fn assign(&mut self, name: &str, value: Value) -> (r: Result<(), String>)
        requires
            old(self).wf(),
        ensures
            final(self).wf(),
            r is Ok <==> old(self).lookup(name@) is Some,
            match r {
                Ok(_) => final(self).frames() == chain_assign(old(self).frames(), name@, value@)
                    && final(self).lookup(name@) == Some(value@),
                Err(m) => final(self).frames() == old(self).frames()
                    && m@ == "Undefined variable '"@ + name@ + "'."@,
            },
        decreases old(self).frames().len(),
    {
        let ghost k = name@;
        let ghost v = value@;
        let ghost before = self.entries();
        proof {
            old(self).lemma_frames_len();
            lemma_last_index_bounds(before, k);
        }
        if let Some(i) = self.position(name) {
            self.values.set(i, value);
            proof {
                assert(self.entries() =~= define_frame(before, k, v));
                self.lemma_frames_len();
                assert(self.frames() =~= chain_define(old(self).frames(), k, v));
                lemma_chain_define(old(self).frames(), k, v, k);
            }
            return Ok(());
        }
        match &mut self.enclosing {
            Some(e) => {
                let ghost inner_before = old(self).outer()->0;
                let r = e.assign(name, value);
                proof {
                    self.lemma_frames_len();
                    assert(self.entries() == before);
                    assert(find(old(self).frames()[0], k) is None);
                    assert(old(self).lookup(k) == chain_lookup(old(self).frames().drop_first(), k));
                    assert(old(self).frames().drop_first() == inner_before.frames());
                    if r is Ok {
                        assert(self.frames() =~= chain_assign(old(self).frames(), k, v));
                    } else {
                        assert(self.frames() =~= old(self).frames());
                    }
                }
                r
            },
            None => {
                proof {
                    assert(self.frames().drop_first().len() == 0);
                    assert(find(old(self).frames()[0], k) is None);
                    assert(chain_lookup(old(self).frames().drop_first(), k) is None);
                    assert(old(self).lookup(k) is None);
                }
                Err(join3("Undefined variable '", name, "'."))
            },
        }
    }
}

} // verus!
