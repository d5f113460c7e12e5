use vstd::prelude::*;

verus! {

/// Style overrides: each style token is mapped to the value that replaces it.
#[derive(Clone, Debug)]
pub struct Theme {
    pub entries: Vec<(String, String)>,
}

impl Theme {
    /// Tokens are unique.
    pub open spec fn wf(&self) -> bool {
        forall|i: int, j: int|
            0 <= i < j < self.entries@.len() ==> #[trigger] self.entries@[i].0@
                != #[trigger] self.entries@[j].0@
    }

    /// The override of `token`, if the theme has one.
    pub open spec fn lookup(&self, token: Seq<char>) -> Option<Seq<char>> {
        if exists|i: int| 0 <= i < self.entries@.len() && self.entries@[i].0@ == token {
            let i = choose|i: int| 0 <= i < self.entries@.len() && self.entries@[i].0@ == token;
            Some(self.entries@[i].1@)
        } else {
            None
        }
    }

    /// A theme that overrides nothing.
    pub fn new() -> (r: Theme)
        ensures
            r.wf(),
            forall|t: Seq<char>| r.lookup(t).is_none(),
    {
        Theme { entries: Vec::new() }
    }

    fn index_of(&self, token: &String) -> (r: Option<usize>)
        ensures
            match r {
                Some(i) => i < self.entries@.len() && self.entries@[i as int].0@ == token@,
                None => forall|i: int| 0 <= i < self.entries@.len() ==> self.entries@[i].0@ != token@,
            },
    {
        let mut i: usize = 0;
        while i < self.entries.len()
            invariant
                i <= self.entries@.len(),
                forall|j: int| 0 <= j < i ==> self.entries@[j].0@ != token@,
            decreases self.entries@.len() - i,
        {
            if self.entries[i].0 == *token {
                return Some(i);
            }
            i = i + 1;
        }
        None
    }

    /// The override of `token`, if any.
    pub fn get(&self, token: &String) -> (r: Option<String>)
        requires
            self.wf(),
        ensures
            match r {
                Some(v) => self.lookup(token@) == Some(v@),
                None => self.lookup(token@).is_none(),
            },
    {
        match self.index_of(token) {
            Some(i) => {
                proof {
                    let k = choose|k: int| 0 <= k < self.entries@.len() && self.entries@[k].0@ == token@;
                    assert(k == i as int);
                }
                Some(self.entries[i].1.clone())
            },
            None => None,
        }
    }

    /// Overrides `token` with `value`, replacing an earlier override of it.
    pub fn set(&mut self, token: String, value: String)
        requires
            old(self).wf(),
        ensures
            final(self).wf(),
            final(self).lookup(token@) == Some(value@),
            forall|t: Seq<char>| t != token@ ==> final(self).lookup(t) == old(self).lookup(t),
    {
        let ghost tok = token@;
        match self.index_of(&token) {
            Some(i) => {
                self.entries.set(i, (token, value));
                assert forall|t: Seq<char>| t != tok implies self.lookup(t) == old(self).lookup(t) by {
                    if exists|k: int| 0 <= k < self.entries@.len() && self.entries@[k].0@ == t {
                        let k = choose|k: int| 0 <= k < self.entries@.len() && self.entries@[k].0@ == t;
                        assert(old(self).entries@[k].0@ == t);
                    }
                    if exists|k: int| 0 <= k < old(self).entries@.len() && old(self).entries@[k].0@ == t {
                        let k = choose|k: int| 0 <= k < old(self).entries@.len() && old(self).entries@[k].0@ == t;
                        assert(self.entries@[k].0@ == t);
                    }
                }
                assert(self.entries@[i as int].0@ == tok);
            },
            None => {
                self.entries.push((token, value));
                let n = self.entries.len() - 1;
                assert(self.entries@[n as int].0@ == tok);
                assert forall|t: Seq<char>| t != tok implies self.lookup(t) == old(self).lookup(t) by {
                    if exists|k: int| 0 <= k < self.entries@.len() && self.entries@[k].0@ == t {
                        let k = choose|k: int| 0 <= k < self.entries@.len() && self.entries@[k].0@ == t;
                        assert(old(self).entries@[k].0@ == t);
                    }
                    if exists|k: int| 0 <= k < old(self).entries@.len() && old(self).entries@[k].0@ == t {
                        let k = choose|k: int| 0 <= k < old(self).entries@.len() && old(self).entries@[k].0@ == t;
                        assert(self.entries@[k].0@ == t);
                    }
                }
            },
        }
    }
}

} // verus!
