use vstd::prelude::*;
use vstd::string::*;

use crate::text::str_eq;

verus! {

/// The abstract content of an argument list: later insertions win.
pub open spec fn arg_map_of(s: Seq<(String, String)>) -> Map<Seq<char>, Seq<char>>
    decreases s,
{
    if s.len() == 0 {
        Map::empty()
    } else {
        arg_map_of(s.drop_last()).insert(s.last().0@, s.last().1@)
    }
}

/// A flat string-keyed argument mapping: the lowest-common-denominator
/// format every command call crosses the boundary in.
pub struct ArgMap {
    entries: Vec<(String, String)>,
}

impl View for ArgMap {
    type V = Map<Seq<char>, Seq<char>>;

    closed spec fn view(&self) -> Map<Seq<char>, Seq<char>> {
        arg_map_of(self.entries@)
    }
}

impl ArgMap {
    /// An empty argument mapping.
    pub fn new() -> (r: ArgMap)
        ensures
            r@ == Map::<Seq<char>, Seq<char>>::empty(),
    {
        let entries: Vec<(String, String)> = Vec::new();
        ArgMap { entries }
    }

    /// Binds `k` to `v`; a later binding for the same key wins.
    pub fn insert(&mut self, k: String, v: String)
        ensures
            final(self)@ == old(self)@.insert(k@, v@),
    {
        let ghost o = self.entries@;
        self.entries.push((k, v));
        proof {
            assert(self.entries@.drop_last() =~= o);
        }
    }

    /// Looks a key up.
    pub fn get(&self, k: &str) -> (r: Option<&String>)
        ensures
            match r {
                Some(v) => self@.contains_key(k@) && v@ == self@[k@],
                None => !self@.contains_key(k@),
            },
    {
        let n = self.entries.len();
        proof {
            assert(self.entries@.take(n as int) =~= self.entries@);
        }
        let mut j: usize = n;
        while j > 0
            invariant
                j <= n,
                n == self.entries@.len(),
                arg_map_of(self.entries@).contains_key(k@) == arg_map_of(
                    self.entries@.take(j as int),
                ).contains_key(k@),
                arg_map_of(self.entries@.take(j as int)).contains_key(k@) ==> arg_map_of(
                    self.entries@,
                )[k@] == arg_map_of(self.entries@.take(j as int))[k@],
            decreases j,
        {
            j -= 1;
            proof {
                assert(self.entries@.take(j as int + 1).drop_last() =~= self.entries@.take(
                    j as int,
                ));
                assert(self.entries@.take(j as int + 1).last() == self.entries@[j as int]);
            }
            let e = &self.entries[j];
            if str_eq(e.0.as_str(), k) {
                return Some(&e.1);
            }
        }
        proof {
            assert(self.entries@.take(0) =~= Seq::<(String, String)>::empty());
        }
        None
    }

    /// Whether a key is bound.
    pub fn contains(&self, k: &str) -> (r: bool)
        ensures
            r == self@.contains_key(k@),
    {
        match self.get(k) {
            Some(_) => true,
            None => false,
        }
    }
}

} // verus!
