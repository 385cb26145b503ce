//! The named display sizes that the user keeps.
//!
//! The sizes are kept as a list in which no name stands twice, and are
//! spoken of as a map from names to sizes.

use crate::config::PresetConfig;
use vstd::prelude::*;
use vstd::string::StringExecFns;

verus! {

/// `name` stands in `entries`.
pub open spec fn listed(entries: Seq<(String, PresetConfig)>, name: Seq<char>) -> bool {
    exists|i: int| 0 <= i < entries.len() && (#[trigger] entries[i]).0@ == name
}

/// A place at which `name` stands in `entries`.
pub open spec fn place_of(entries: Seq<(String, PresetConfig)>, name: Seq<char>) -> int {
    choose|i: int| 0 <= i < entries.len() && (#[trigger] entries[i]).0@ == name
}

/// No name stands twice in `entries`.
pub open spec fn unrepeated(entries: Seq<(String, PresetConfig)>) -> bool {
    forall|i: int, j: int|
        #![trigger entries[i], entries[j]]
        0 <= i < j < entries.len() ==> entries[i].0@ != entries[j].0@
}

/// The map that a list of named sizes stands for.
pub open spec fn table(entries: Seq<(String, PresetConfig)>) -> Map<Seq<char>, PresetConfig> {
    Map::new(
        |name: Seq<char>| listed(entries, name),
        |name: Seq<char>| entries[place_of(entries, name)].1,
    )
}

/// In a list without a repeated name, each entry is what the map holds
/// under its name.
pub proof fn lemma_table_entry(entries: Seq<(String, PresetConfig)>, i: int)
    requires
        unrepeated(entries),
        0 <= i < entries.len(),
    ensures
        table(entries).dom().contains(entries[i].0@),
        table(entries)[entries[i].0@] == entries[i].1,
        place_of(entries, entries[i].0@) == i,
{
    let name = entries[i].0@;
    assert(listed(entries, name));
    let p = place_of(entries, name);
    assert(0 <= p < entries.len() && entries[p].0@ == name);
    if p < i {
        assert(entries[p].0@ != entries[i].0@);
    }
    if i < p {
        assert(entries[i].0@ != entries[p].0@);
    }
}

/// The named display sizes, at most one under each name.
pub struct Presets {
    entries: Vec<(String, PresetConfig)>,
}

impl View for Presets {
    type V = Map<Seq<char>, PresetConfig>;

    closed spec fn view(&self) -> Map<Seq<char>, PresetConfig> {
        table(self.entries@)
    }
}

/// The size that a map holds under `name`, if any.
pub open spec fn size_under(sizes: Map<Seq<char>, PresetConfig>, name: Seq<char>) -> Option<
    PresetConfig,
> {
    if sizes.dom().contains(name) {
        Some(sizes[name])
    } else {
        None
    }
}

/// Looks for the place of `name` in `entries`.
fn find_name(entries: &Vec<(String, PresetConfig)>, name: &String) -> (r: Option<usize>)
    ensures
        match r {
            Some(i) => i < entries.len() && entries[i as int].0@ == name@,
            None => !listed(entries@, name@),
        },
{
    let mut i: usize = 0;
    while i < entries.len()
        invariant
            i <= entries.len(),
            forall|k: int| 0 <= k < i ==> (#[trigger] entries[k]).0@ != name@,
        decreases entries.len() - i,
    {
        if entries[i].0 == *name {
            return Some(i);
        }
        i += 1;
    }
    None
}

impl Presets {
    #[verifier::type_invariant]
    spec fn well_formed(self) -> bool {
        unrepeated(self.entries@)
    }

    /// No sizes.
    pub fn new() -> (presets: Self)
        ensures
            presets@ == Map::<Seq<char>, PresetConfig>::empty(),
    {
        let presets = Presets { entries: Vec::new() };
        assert(presets@ =~= Map::<Seq<char>, PresetConfig>::empty());
        presets
    }

    /// The size kept under `name`.
    pub fn get(&self, name: &str) -> (r: Option<PresetConfig>)
        ensures
            r == size_under(self@, name@),
    {
        proof {
            use_type_invariant(self);
        }
        let wanted = String::from_str(name);
        match find_name(&self.entries, &wanted) {
            Some(i) => {
                proof {
                    lemma_table_entry(self.entries@, i as int);
                }
                Some(self.entries[i].1)
            },
            None => None,
        }
    }

    /// Keeps `preset` under `name`, in place of what was kept under it.
    pub fn insert(&mut self, name: String, preset: PresetConfig)
        ensures
            final(self)@ == old(self)@.insert(name@, preset),
    {
        proof {
            use_type_invariant(&*self);
        }
        let ghost before = self.entries@;
        let ghost key = name@;
        let found = find_name(&self.entries, &name);
        let mut entries: Vec<(String, PresetConfig)> = Vec::new();
        std::mem::swap(&mut entries, &mut self.entries);
        match found {
            Some(i) => {
                entries.remove(i);
                entries.insert(i, (name, preset));
            },
            None => {
                entries.push((name, preset));
            },
        }
        proof {
            let after = entries@;
            let at: int = match found {
                Some(i) => i as int,
                None => before.len() as int,
            };
            assert(after.len() > at && after[at].0@ == key && after[at].1 == preset);
            assert(forall|j: int|
                0 <= j < after.len() && j != at ==> j < before.len() && #[trigger] after[j]
                    == before[j]);
            assert(forall|j: int|
                0 <= j < before.len() && j != at ==> #[trigger] before[j] == after[j]);
            assert(unrepeated(after)) by {
                assert forall|i: int, j: int|
                    #![trigger after[i], after[j]]
                    0 <= i < j < after.len() implies after[i].0@ != after[j].0@ by {
                    if i == at {
                        assert(before[j] == after[j]);
                    } else if j == at {
                        assert(before[i] == after[i]);
                    } else {
                        assert(before[i] == after[i] && before[j] == after[j]);
                    }
                }
            }
            assert forall|k: Seq<char>|
                table(after).dom().contains(k) <==> table(before).insert(
                    key,
                    preset,
                ).dom().contains(k) by {
                if listed(after, k) && k != key {
                    let p = place_of(after, k);
                    assert(before[p] == after[p]);
                }
                if listed(before, k) && k != key {
                    let p = place_of(before, k);
                    assert(before[p] == after[p]);
                }
            }
            assert forall|k: Seq<char>| table(after).dom().contains(k) implies table(after)[k]
                == table(before).insert(key, preset)[k] by {
                let p = place_of(after, k);
                lemma_table_entry(after, p);
                if k == key {
                    lemma_table_entry(after, at);
                } else {
                    assert(before[p] == after[p]);
                    lemma_table_entry(before, p);
                }
            }
            assert(table(after) =~= table(before).insert(key, preset));
        }
        self.entries = entries;
    }

    /// Drops what is kept under `name` and returns it.
    pub fn remove(&mut self, name: &str) -> (r: Option<PresetConfig>)
        ensures
            r == size_under(old(self)@, name@),
            final(self)@ == old(self)@.remove(name@),
    {
        proof {
            use_type_invariant(&*self);
        }
        let ghost before = self.entries@;
        let wanted = String::from_str(name);
        match find_name(&self.entries, &wanted) {
            Some(i) => {
                let mut entries: Vec<(String, PresetConfig)> = Vec::new();
                std::mem::swap(&mut entries, &mut self.entries);
                let gone = entries.remove(i);
                proof {
                    let after = entries@;
                    lemma_table_entry(before, i as int);
                    assert(forall|j: int| 0 <= j < i ==> #[trigger] after[j] == before[j]);
                    assert(forall|j: int|
                        i <= j < after.len() ==> #[trigger] after[j] == before[j + 1]);
                    assert(unrepeated(after)) by {
                        assert forall|a: int, b: int|
                            #![trigger after[a], after[b]]
                            0 <= a < b < after.len() implies after[a].0@ != after[b].0@ by {
                            let x = if a < i {
                                a
                            } else {
                                a + 1
                            };
                            let y = if b < i {
                                b
                            } else {
                                b + 1
                            };
                            assert(after[a] == before[x] && after[b] == before[y]);
                        }
                    }
                    assert forall|k: Seq<char>|
                        table(after).dom().contains(k) <==> table(before).remove(
                            name@,
                        ).dom().contains(k) by {
                        if listed(after, k) {
                            let p = place_of(after, k);
                            let x = if p < i {
                                p
                            } else {
                                p + 1
                            };
                            assert(after[p] == before[x]);
                            lemma_table_entry(before, x);
                        }
                        if listed(before, k) && k != name@ {
                            let p = place_of(before, k);
                            let x = if p < i {
                                p
                            } else {
                                p - 1
                            };
                            assert(after[x] == before[p]);
                        }
                    }
                    assert forall|k: Seq<char>|
                        table(after).dom().contains(k) implies table(after)[k] == table(
                        before,
                    ).remove(name@)[k] by {
                        let p = place_of(after, k);
                        let x = if p < i {
                            p
                        } else {
                            p + 1
                        };
                        assert(after[p] == before[x]);
                        lemma_table_entry(after, p);
                        lemma_table_entry(before, x);
                    }
                    assert(table(after) =~= table(before).remove(name@));
                }
                self.entries = entries;
                Some(gone.1)
            },
            None => {
                assert(self@ =~= self@.remove(name@));
                None
            },
        }
    }

    /// The names with their sizes, each name once.
    pub fn entries(&self) -> (list: Vec<(String, PresetConfig)>)
        ensures
            unrepeated(list@),
            table(list@) == self@,
    {
        proof {
            use_type_invariant(self);
        }
        let mut list: Vec<(String, PresetConfig)> = Vec::new();
        let mut i: usize = 0;
        while i < self.entries.len()
            invariant
                i <= self.entries.len(),
                list.len() == i,
                forall|k: int|
                    0 <= k < i ==> (#[trigger] list[k]).0@ == self.entries[k].0@ && list[k].1
                        == self.entries[k].1,
            decreases self.entries.len() - i,
        {
            list.push((self.entries[i].0.clone(), self.entries[i].1));
            i += 1;
        }
        proof {
            let mine = self.entries@;
            let theirs = list@;
            assert forall|a: int, b: int|
                #![trigger theirs[a], theirs[b]]
                0 <= a < b < theirs.len() implies theirs[a].0@ != theirs[b].0@ by {
                assert(mine[a].0@ != mine[b].0@);
            }
            assert forall|k: Seq<char>| listed(theirs, k) <==> listed(mine, k) by {
                if listed(theirs, k) {
                    let p = place_of(theirs, k);
                    assert(mine[p].0@ == k);
                }
                if listed(mine, k) {
                    let p = place_of(mine, k);
                    assert(theirs[p].0@ == k);
                }
            }
            assert forall|k: Seq<char>| listed(theirs, k) implies table(theirs)[k] == table(
                mine,
            )[k] by {
                let p = place_of(theirs, k);
                lemma_table_entry(theirs, p);
                lemma_table_entry(mine, p);
            }
            assert(table(theirs) =~= table(mine));
        }
        list
    }
}

} // verus!
