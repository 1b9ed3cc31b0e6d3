use vstd::prelude::*;

verus! {

/// A small association table from names to values, viewed as a
/// `Map<Seq<char>, V>`.  Both the scope chain's symbol mappings and an
/// activation record's member mapping are of this shape; callers fold names
/// to lower case before touching it, which makes those mappings
/// case-insensitive.  A newly inserted binding stands first and shadows any
/// older binding of the same name.
pub struct NameMap<V> {
    entries: Vec<(String, V)>,
}

/// The mapping a sequence of bindings denotes: an earlier binding wins over
/// a later one of the same name.
pub open spec fn entries_map<V>(s: Seq<(String, V)>) -> Map<Seq<char>, V>
    decreases s.len(),
{
    if s.len() == 0 {
        Map::empty()
    } else {
        entries_map(s.drop_first()).insert(s[0].0@, s[0].1)
    }
}

impl<V> NameMap<V> {
    pub closed spec fn view(&self) -> Map<Seq<char>, V> {
        entries_map(self.entries@)
    }

    pub fn new() -> (r: NameMap<V>)
        ensures
            r@ == Map::<Seq<char>, V>::empty(),
    {
        NameMap { entries: Vec::new() }
    }

    /// The value bound to `key`, or `None` where no binding exists.
    pub fn get(&self, key: &String) -> (r: Option<&V>)
        ensures
            match r {
                Some(v) => self@.contains_key(key@) && *v == self@[key@],
                None => !self@.contains_key(key@),
            },
    {
        let n = self.entries.len();
        let mut i: usize = 0;
        proof {
            assert(self.entries@.skip(0) =~= self.entries@);
        }
        while i < n
            invariant
                i <= n,
                n == self.entries@.len(),
                entries_map(self.entries@.skip(i as int)).contains_key(key@) == self@.contains_key(
                    key@,
                ),
                entries_map(self.entries@.skip(i as int)).contains_key(key@) ==> entries_map(
                    self.entries@.skip(i as int),
                )[key@] == self@[key@],
                forall|j: int| 0 <= j < i ==> #[trigger] self.entries@[j].0@ != key@,
            decreases n - i,
        {
            proof {
                assert(self.entries@.skip(i as int).len() > 0);
                assert(self.entries@.skip(i as int)[0] == self.entries@[i as int]);
                assert(self.entries@.skip(i as int).drop_first() =~= self.entries@.skip(
                    i as int + 1,
                ));
            }
            if self.entries[i].0 == *key {
                return Some(&self.entries[i].1);
            }
            i = i + 1;
        }
        proof {
            assert(self.entries@.skip(n as int) =~= Seq::<(String, V)>::empty());
        }
        None
    }

    /// Binds `key` to `value`, shadowing any existing binding.
    pub fn insert(&mut self, key: String, value: V)
        ensures
            final(self)@ == old(self)@.insert(key@, value),
    {
        self.entries.insert(0, (key, value));
        proof {
            assert(self.entries@.drop_first() =~= old(self).entries@);
        }
    }
}

} // verus!
