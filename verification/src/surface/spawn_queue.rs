//! Items waiting to be spawned, grouped by the surface they belong to.

use vstd::prelude::*;

verus! {

/// Items grouped by surface name; each name has at most one group, and
/// groups keep the order in which their names first appeared.
#[derive(Debug)]
pub struct SpawnGroups<T> {
    pub per_surface: Vec<(String, Vec<T>)>,
}

/// Index of the first group called `name`, or -1.
pub open spec fn group_index<T>(groups: Seq<(Seq<char>, Seq<T>)>, name: Seq<char>) -> int
    decreases groups.len(),
{
    if groups.len() == 0 {
        -1
    } else {
        let p = group_index(groups.drop_last(), name);
        if p >= 0 {
            p
        } else if groups.last().0 == name {
            groups.len() - 1
        } else {
            -1
        }
    }
}

/// `groups` with `item` appended to the group `name`, or a new group
/// `name` holding only `item` at the end when there is none.
pub open spec fn add_to_groups<T>(groups: Seq<(Seq<char>, Seq<T>)>, name: Seq<char>, item: T) -> Seq<(Seq<char>, Seq<T>)> {
    let p = group_index(groups, name);
    if p >= 0 {
        groups.update(p, (groups[p].0, groups[p].1.push(item)))
    } else {
        groups.push((name, seq![item]))
    }
}

/// Adds each `(name, item)` of `items` in order.
pub open spec fn add_all_to_groups<T>(groups: Seq<(Seq<char>, Seq<T>)>, items: Seq<(Seq<char>, T)>) -> Seq<(Seq<char>, Seq<T>)>
    decreases items.len(),
{
    if items.len() == 0 {
        groups
    } else {
        add_to_groups(add_all_to_groups(groups, items.drop_last()), items.last().0, items.last().1)
    }
}

/// Adding two batches one after the other is adding their concatenation.
pub proof fn lemma_add_all_concat<T>(groups: Seq<(Seq<char>, Seq<T>)>, a: Seq<(Seq<char>, T)>, b: Seq<(Seq<char>, T)>)
    ensures
        add_all_to_groups(add_all_to_groups(groups, a), b) == add_all_to_groups(groups, a + b),
    decreases b.len(),
{
    if b.len() == 0 {
        assert(a + b =~= a);
    } else {
        lemma_add_all_concat(groups, a, b.drop_last());
        assert((a + b).drop_last() =~= a + b.drop_last());
        assert((a + b).last() == b.last());
    }
}

proof fn lemma_group_index_first<T>(groups: Seq<(Seq<char>, Seq<T>)>, name: Seq<char>, g: int)
    requires
        0 <= g <= groups.len(),
        forall|j: int| 0 <= j < g ==> (#[trigger] groups[j]).0 != name,
        g < groups.len() ==> groups[g].0 == name,
    ensures
        group_index(groups, name) == if g < groups.len() { g } else { -1 },
    decreases groups.len(),
{
    if groups.len() > 0 {
        let init = groups.drop_last();
        if g < groups.len() - 1 {
            lemma_group_index_first(init, name, g);
        } else {
            assert forall|j: int| 0 <= j < init.len() implies (#[trigger] init[j]).0 != name by {
                assert(init[j] == groups[j]);
            }
            lemma_group_index_first(init, name, init.len() as int);
        }
    }
}

/// No two groups have the same name: the groups map each name to its items.
pub open spec fn names_distinct<T>(groups: Seq<(Seq<char>, Seq<T>)>) -> bool {
    forall|i: int, j: int| 0 <= i < j < groups.len() ==> (#[trigger] groups[i]).0 != (#[trigger] groups[j]).0
}

impl<T> SpawnGroups<T> {
    /// The groups as names and item sequences.
    pub open spec fn groups(&self) -> Seq<(Seq<char>, Seq<T>)> {
        self.per_surface@.map_values(|p: (String, Vec<T>)| (p.0@, p.1@))
    }

    /// No groups.
    pub fn new() -> (r: Self)
        ensures
            r.groups() == Seq::<(Seq<char>, Seq<T>)>::empty(),
            names_distinct(r.groups()),
    {
        let r = SpawnGroups { per_surface: Vec::new() };
        assert(r.groups() =~= Seq::<(Seq<char>, Seq<T>)>::empty());
        r
    }

    /// Appends `item` to the group `name`, opening the group if needed.
    pub fn add(&mut self, name: &String, item: T)
        ensures
            final(self).groups() == add_to_groups(old(self).groups(), name@, item),
            names_distinct(old(self).groups()) ==> names_distinct(final(self).groups()),
    {
        let ghost before = self.groups();
        let n = self.per_surface.len();
        let mut g: usize = 0;
        let mut found = false;
        while g < n
            invariant_except_break
                !found,
                n == self.per_surface@.len(),
                self.groups() == before,
                g <= n,
                forall|j: int| 0 <= j < g ==> (#[trigger] before[j]).0 != name@,
            ensures
                n == self.per_surface@.len(),
                self.groups() == before,
                g <= n,
                forall|j: int| 0 <= j < g ==> (#[trigger] before[j]).0 != name@,
                found ==> g < n && before[g as int].0 == name@,
                !found ==> g == n,
            decreases n - g,
        {
            if self.per_surface[g].0 == *name {
                found = true;
                break;
            }
            g = g + 1;
        }
        proof {
            lemma_group_index_first(before, name@, g as int);
        }
        if found {
            let (group_name, mut items) = self.per_surface.remove(g);
            items.push(item);
            self.per_surface.insert(g, (group_name, items));
        } else {
            let mut items: Vec<T> = Vec::new();
            items.push(item);
            self.per_surface.push((name.clone(), items));
        }
        assert(self.groups() =~= add_to_groups(before, name@, item));
        proof {
            if names_distinct(before) {
                let after = self.groups();
                if found {
                    assert forall|a: int| 0 <= a < after.len() implies (#[trigger] after[a]).0 == before[a].0 by {}
                } else {
                    assert forall|a: int, c: int| 0 <= a < c < after.len() implies (#[trigger] after[a]).0
                        != (#[trigger] after[c]).0 by {
                        assert(after[a] == before[a]);
                        if c < before.len() {
                            assert(after[c] == before[c]);
                        }
                    }
                }
            }
        }
    }
}

} // verus!
