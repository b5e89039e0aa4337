use vstd::prelude::*;

verus! {

/// The variable store of one workflow run: names mapped to string values,
/// where the last write to a name wins.
#[derive(Debug)]
pub struct ExecutionContext {
    vars: Vec<(String, String)>,
}

/// The map that a list of entries stands for; a later entry for a name
/// overrides an earlier one.
pub open spec fn map_of(e: Seq<(String, String)>) -> Map<Seq<char>, Seq<char>>
    decreases e.len(),
{
    if e.len() == 0 {
        Map::empty()
    } else {
        map_of(e.drop_last()).insert(e.last().0@, e.last().1@)
    }
}

/// Index `i` holds the last entry for its name.
pub open spec fn last_for_key(e: Seq<(String, String)>, i: int) -> bool {
    0 <= i < e.len() && forall|j: int| i < j < e.len() ==> e[j].0@ != e[i].0@
}

/// The value of `key` in `m`, or the empty sequence where `m` has none.
pub open spec fn value_or_empty(m: Map<Seq<char>, Seq<char>>, key: Seq<char>) -> Seq<char> {
    if m.contains_key(key) {
        m[key]
    } else {
        Seq::empty()
    }
}

proof fn lemma_map_of_absent(e: Seq<(String, String)>, k: Seq<char>)
    requires
        forall|i: int| 0 <= i < e.len() ==> e[i].0@ != k,
    ensures
        !map_of(e).contains_key(k),
    decreases e.len(),
{
    if e.len() > 0 {
        lemma_map_of_absent(e.drop_last(), k);
    }
}

proof fn lemma_map_of_at(e: Seq<(String, String)>, i: int)
    requires
        last_for_key(e, i),
    ensures
        map_of(e).contains_key(e[i].0@),
        map_of(e)[e[i].0@] == e[i].1@,
    decreases e.len(),
{
    if i < e.len() - 1 {
        lemma_map_of_at(e.drop_last(), i);
    }
}

proof fn lemma_map_of_update(e: Seq<(String, String)>, i: int, x: (String, String))
    requires
        last_for_key(e, i),
        x.0@ == e[i].0@,
    ensures
        map_of(e.update(i, x)) == map_of(e).insert(x.0@, x.1@),
    decreases e.len(),
{
    let u = e.update(i, x);
    if i == e.len() - 1 {
        assert(u.drop_last() =~= e.drop_last());
        assert(map_of(u) =~= map_of(e).insert(x.0@, x.1@));
    } else {
        assert(u.drop_last() =~= e.drop_last().update(i, x));
        lemma_map_of_update(e.drop_last(), i, x);
        assert(map_of(u) =~= map_of(e).insert(x.0@, x.1@));
    }
}

impl View for ExecutionContext {
    type V = Map<Seq<char>, Seq<char>>;

    closed spec fn view(&self) -> Map<Seq<char>, Seq<char>> {
        map_of(self.vars@)
    }
}

impl ExecutionContext {
    /// An empty store.
    pub fn new() -> (r: Self)
        ensures
            r@ == Map::<Seq<char>, Seq<char>>::empty(),
    {
        ExecutionContext { vars: Vec::new() }
    }

    /// Binds `key` to `value`, replacing any earlier value.
    pub fn set(&mut self, key: &str, value: &str)
        ensures
            final(self)@ == old(self)@.insert(key@, value@),
    {
        let k = String::from_str(key);
        let v = String::from_str(value);
        let ghost e = self.vars@;
        match self.index_of(&k) {
            Some(i) => {
                proof {
                    lemma_map_of_update(e, i as int, (k, v));
                }
                self.vars.set(i, (k, v));
                assert(self.vars@ == e.update(i as int, (k, v)));
            },
            None => {
                self.vars.push((k, v));
                assert(self.vars@.drop_last() =~= e);
            },
        }
    }

    /// The index of the last entry for `key`, if there is one.
    fn index_of(&self, key: &String) -> (r: Option<usize>)
        ensures
            match r {
                Some(i) => last_for_key(self.vars@, i as int) && self.vars@[i as int].0@ == key@,
                None => forall|j: int| 0 <= j < self.vars@.len() ==> self.vars@[j].0@ != key@,
            },
    {
        let mut i: usize = self.vars.len();
        while i > 0
            invariant
                i <= self.vars@.len(),
                forall|j: int| i <= j < self.vars@.len() ==> self.vars@[j].0@ != key@,
            decreases i,
        {
            if self.vars[i - 1].0 == *key {
                return Some(i - 1);
            }
            i = i - 1;
        }
        None
    }

    /// The value bound to `key`, if any.
    pub fn get(&self, key: &str) -> (r: Option<&String>)
        ensures
            match r {
                Some(v) => self@.contains_key(key@) && self@[key@] == v@,
                None => !self@.contains_key(key@),
            },
    {
        let k = String::from_str(key);
        match self.index_of(&k) {
            Some(i) => {
                proof {
                    lemma_map_of_at(self.vars@, i as int);
                }
                Some(&self.vars[i].1)
            },
            None => {
                proof {
                    lemma_map_of_absent(self.vars@, key@);
                }
                None
            },
        }
    }

    /// The entries of the store; a later entry for a name overrides an earlier one.
    pub fn as_map(&self) -> (r: &[(String, String)])
        ensures
            map_of(r@) == self@,
    {
        self.vars.as_slice()
    }
}

} // verus!
