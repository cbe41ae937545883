//! The header fields of a request: names with their values, each name once.

use vstd::prelude::*;
use vstd::string::*;

verus! {

/// Header fields in the order in which their names first appeared.
#[derive(Debug)]
pub struct Headers {
    entries: Vec<(String, String)>,
}

/// Whether some entry has the name `name`.
pub open spec fn has_name(entries: Seq<(String, String)>, name: Seq<char>) -> bool {
    exists|i: int| 0 <= i < entries.len() && (#[trigger] entries[i]).0@ == name
}

/// The position of an entry with the name `name`.
pub open spec fn position_of(entries: Seq<(String, String)>, name: Seq<char>) -> int {
    choose|i: int| 0 <= i < entries.len() && (#[trigger] entries[i]).0@ == name
}

/// No two entries share a name.
pub open spec fn distinct_names(entries: Seq<(String, String)>) -> bool {
    forall|i: int, j: int|
        0 <= i < j < entries.len() ==> (#[trigger] entries[i]).0@ != (#[trigger] entries[j]).0@
}

/// The fields as a map from name to value.
pub open spec fn fields_of(entries: Seq<(String, String)>) -> Map<Seq<char>, Seq<char>> {
    Map::new(
        |name: Seq<char>| has_name(entries, name),
        |name: Seq<char>| entries[position_of(entries, name)].1@,
    )
}

impl View for Headers {
    type V = Map<Seq<char>, Seq<char>>;

    closed spec fn view(&self) -> Map<Seq<char>, Seq<char>> {
        fields_of(self.entries@)
    }
}

impl Headers {
    /// The invariant: every name occurs once.
    pub closed spec fn wf(&self) -> bool {
        distinct_names(self.entries@)
    }

    /// The entries, in the order in which their names first appeared.
    pub closed spec fn entries(&self) -> Seq<(String, String)> {
        self.entries@
    }

    /// What the view and the invariant say of the entries.
    pub proof fn entries_give_the_view(&self)
        ensures
            self@ == fields_of(self.entries()),
            self.wf() == distinct_names(self.entries()),
    {
    }

    /// No fields.
    pub fn new() -> (headers: Headers)
        ensures
            headers.wf(),
            headers@ == Map::<Seq<char>, Seq<char>>::empty(),
            headers.entries().len() == 0,
    {
        let headers = Headers { entries: Vec::new() };
        assert(headers@ =~= Map::<Seq<char>, Seq<char>>::empty());
        headers
    }

    /// The number of fields.
    pub fn len(&self) -> (n: usize)
        requires
            self.wf(),
        ensures
            n == self@.dom().len(),
            n == self.entries().len(),
            self@.dom().finite(),
    {
        proof {
            domain_size(self.entries@);
        }
        self.entries.len()
    }

    /// The fields as pairs of name and value, in the order in which their
    /// names first appeared.
    pub fn pairs(&self) -> (pairs: &Vec<(String, String)>)
        ensures
            pairs@ == self.entries(),
    {
        &self.entries
    }

    /// The value of the field `name`, if there is one.
    pub fn get(&self, name: &str) -> (value: Option<&String>)
        requires
            self.wf(),
        ensures
            match value {
                Some(v) => self@.contains_key(name@) && v@ == self@[name@],
                None => !self@.contains_key(name@),
            },
    {
        let wanted: String = name.to_owned();
        let mut i: usize = 0;
        while i < self.entries.len()
            invariant
                i <= self.entries@.len(),
                wanted@ == name@,
                distinct_names(self.entries@),
                forall|k: int| 0 <= k < i ==> (#[trigger] self.entries@[k]).0@ != name@,
            decreases self.entries@.len() - i,
        {
            if self.entries[i].0 == wanted {
                proof {
                    assert(self.entries@[i as int].0@ == name@);
                    let k = position_of(self.entries@, name@);
                    assert(self.entries@[k].0@ == self.entries@[i as int].0@);
                    assert(k == i);
                }
                return Some(&self.entries[i].1);
            }
            i += 1;
        }
        None
    }

    /// Sets the field `name` to `value`: an entry of that name is replaced
    /// where it stands, a new name goes to the end.
    pub fn insert(&mut self, name: String, value: String)
        requires
            old(self).wf(),
        ensures
            final(self).wf(),
            final(self)@ == old(self)@.insert(name@, value@),
            final(self).entries() == (if has_name(old(self).entries(), name@) {
                old(self).entries().update(
                    position_of(old(self).entries(), name@),
                    (name, value),
                )
            } else {
                old(self).entries().push((name, value))
            }),
    {
        let ghost before = self.entries@;
        let mut i: usize = 0;
        while i < self.entries.len()
            invariant
                i <= self.entries@.len(),
                self.entries@ == before,
                before == old(self).entries@,
                distinct_names(before),
                forall|k: int| 0 <= k < i ==> (#[trigger] before[k]).0@ != name@,
            decreases self.entries@.len() - i,
        {
            if self.entries[i].0 == name {
                self.entries[i] = (name, value);
                proof {
                    let after = self.entries@;
                    assert forall|k: int| 0 <= k < after.len() implies (#[trigger] after[k]).0@
                        == before[k].0@ by {}
                    assert forall|n: Seq<char>| has_name(after, n) == has_name(before, n) by {
                        if has_name(before, n) {
                            let k = position_of(before, n);
                            assert(after[k].0@ == n);
                        }
                        if has_name(after, n) {
                            let k = position_of(after, n);
                            assert(before[k].0@ == n);
                        }
                    }
                    assert(before[i as int].0@ == name@);
                    assert(after[i as int].0@ == name@);
                    assert forall|a: int, b: int| 0 <= a < b < after.len() implies (
                    #[trigger] after[a]).0@ != (#[trigger] after[b]).0@ by {
                        assert(before[a].0@ != before[b].0@);
                    }
                    assert forall|n: Seq<char>| has_name(before, n) implies position_of(after, n)
                        == position_of(before, n) by {
                        let k = position_of(before, n);
                        let k2 = position_of(after, n);
                        assert(after[k].0@ == n);
                        assert(after[k2].0@ == after[k].0@);
                    }
                    assert(position_of(after, name@) == i) by {
                        let k2 = position_of(after, name@);
                        assert(after[k2].0@ == after[i as int].0@);
                    }
                    assert(fields_of(after) =~= fields_of(before).insert(name@, value@));
                }
                return;
            }
            i += 1;
        }
        self.entries.push((name, value));
        proof {
            let after = self.entries@;
            assert forall|n: Seq<char>| has_name(after, n) == (has_name(before, n) || n
                == name@) by {
                if has_name(before, n) {
                    let k = position_of(before, n);
                    assert(after[k].0@ == n);
                }
                if n == name@ {
                    assert(after[before.len() as int].0@ == n);
                }
                if has_name(after, n) && n != name@ {
                    let k = position_of(after, n);
                    assert(before[k].0@ == n);
                }
            }
            assert(!has_name(before, name@));
            assert forall|a: int, b: int| 0 <= a < b < after.len() implies (#[trigger] after[a]).0@
                != (#[trigger] after[b]).0@ by {
                if b < before.len() {
                    assert(before[a].0@ != before[b].0@);
                } else {
                    assert(before[a].0@ != name@);
                }
            }
            assert(after[position_of(after, name@)].0@ == name@);
            assert(position_of(after, name@) == before.len());
            assert forall|n: Seq<char>| has_name(before, n) && n != name@ implies after[position_of(
                after,
                n,
            )].1@ == before[position_of(before, n)].1@ by {
                let k = position_of(before, n);
                assert(after[k].0@ == n);
                let k2 = position_of(after, n);
                assert(before[k2] == after[k2]);
            }
            assert(fields_of(after) =~= fields_of(before).insert(name@, value@));
        }
    }
}

/// A list of distinct names has as many names as entries.
pub proof fn domain_size(entries: Seq<(String, String)>)
    requires
        distinct_names(entries),
    ensures
        fields_of(entries).dom().finite(),
        fields_of(entries).dom().len() == entries.len(),
    decreases entries.len(),
{
    if entries.len() == 0 {
        assert(fields_of(entries).dom() =~= Set::<Seq<char>>::empty());
    } else {
        let front = entries.drop_last();
        let last = entries.last().0@;
        domain_size(front);
        assert forall|n: Seq<char>| has_name(entries, n) == (has_name(front, n) || n == last) by {
            if has_name(front, n) {
                let k = position_of(front, n);
                assert(entries[k].0@ == n);
            }
            if n == last {
                assert(entries[entries.len() - 1].0@ == n);
            }
            if has_name(entries, n) && n != last {
                let k = position_of(entries, n);
                assert(front[k].0@ == n);
            }
        }
        assert(!has_name(front, last)) by {
            if has_name(front, last) {
                let k = position_of(front, last);
                assert(entries[k].0@ == entries[entries.len() - 1].0@);
            }
        }
        assert(fields_of(entries).dom() =~= fields_of(front).dom().insert(last));
    }
}

} // verus!
