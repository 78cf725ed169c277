use vstd::prelude::*;

use crate::text::str_eq;

verus! {

/// The ships of one match grouped by the competitor each played for.
pub struct CompetitorGroups {
    /// Each competitor once.
    pub names: Vec<String>,
    /// For each ship, in the order given, the index in `names` of its
    /// competitor.
    pub owner: Vec<usize>,
}

/// `g` groups the ships whose competitors are `competitors`: its names are
/// distinct, each ship points at the name of its own competitor, and every
/// name has at least one ship.
pub open spec fn groups_of(g: CompetitorGroups, competitors: Seq<String>) -> bool {
    &&& forall|a: int, b: int|
        0 <= a < g.names@.len() && 0 <= b < g.names@.len() && a != b ==> (#[trigger] g.names@[a])@
            != (#[trigger] g.names@[b])@
    &&& g.owner@.len() == competitors.len()
    &&& forall|k: int|
        0 <= k < competitors.len() ==> (#[trigger] g.owner@[k]) < g.names@.len()
            && g.names@[g.owner@[k] as int]@ == competitors[k]@
    &&& forall|n: int|
        0 <= n < g.names@.len() ==> #[trigger] has_ship(g.owner@, g.names@, competitors, n, competitors.len() as int)
}

/// Some ship among the first `upto` plays for the competitor `names[n]`.
pub open spec fn has_ship(owner: Seq<usize>, names: Seq<String>, competitors: Seq<String>, n: int, upto: int) -> bool {
    exists|k: int| 0 <= k < upto && owner[k] == n && names[n]@ == #[trigger] competitors[k]@
}

/// Fewer than two competitors took part: all ships played for the same one
/// (or there were none).
pub open spec fn single_competitor(competitors: Seq<String>) -> bool {
    forall|i: int, j: int|
        0 <= i < competitors.len() && 0 <= j < competitors.len() ==> (#[trigger] competitors[i])@
            == (#[trigger] competitors[j])@
}

/// The position of `name` in `names`, if it is there.
fn position_of(names: &Vec<String>, name: &str) -> (r: Option<usize>)
    ensures
        match r {
            Some(i) => i < names@.len() && names@[i as int]@ == name@,
            None => forall|i: int| 0 <= i < names@.len() ==> (#[trigger] names@[i])@ != name@,
        },
{
    let mut i: usize = 0;
    while i < names.len()
        invariant
            0 <= i <= names@.len(),
            forall|j: int| 0 <= j < i ==> (#[trigger] names@[j])@ != name@,
        decreases names@.len() - i,
    {
        if str_eq(names[i].as_str(), name) {
            return Some(i);
        }
        i = i + 1;
    }
    None
}

/// Group the ships of a match by competitor, given each ship's competitor in
/// ship order.
pub fn group_by_competitor(competitors: &Vec<String>) -> (g: CompetitorGroups)
    ensures
        groups_of(g, competitors@),
{
    let mut names: Vec<String> = Vec::new();
    let mut owner: Vec<usize> = Vec::new();
    let mut k: usize = 0;
    while k < competitors.len()
        invariant
            0 <= k <= competitors@.len(),
            owner@.len() == k,
            names@.len() <= k,
            forall|a: int, b: int|
                0 <= a < names@.len() && 0 <= b < names@.len() && a != b ==> (#[trigger] names@[a])@
                    != (#[trigger] names@[b])@,
            forall|j: int|
                0 <= j < k ==> (#[trigger] owner@[j]) < names@.len() && names@[owner@[j] as int]@
                    == competitors@[j]@,
            forall|n: int|
                0 <= n < names@.len() ==> #[trigger] has_ship(owner@, names@, competitors@, n, k as int),
        decreases competitors@.len() - k,
    {
        let c = &competitors[k];
        let ghost old_names = names@;
        let ghost old_owner = owner@;
        match position_of(&names, c.as_str()) {
            Some(i) => {
                owner.push(i);
                proof {
                    assert forall|n: int| 0 <= n < names@.len() implies #[trigger] has_ship(
                        owner@,
                        names@,
                        competitors@,
                        n,
                        k + 1,
                    ) by {
                        assert(has_ship(old_owner, old_names, competitors@, n, k as int));
                        let j = choose|j: int|
                            0 <= j < k && old_owner[j] == n && old_names[n]@
                                == #[trigger] competitors@[j]@;
                        assert(owner@[j] == old_owner[j]);
                        assert(0 <= j < k + 1 && owner@[j] == n && names@[n]@ == competitors@[j]@);
                    }
                }
            },
            None => {
                let name = c.clone();
                names.push(name);
                owner.push(names.len() - 1);
                proof {
                    assert forall|a: int, b: int|
                        0 <= a < names@.len() && 0 <= b < names@.len() && a != b implies (
                        #[trigger] names@[a])@ != (#[trigger] names@[b])@ by {
                        if a < old_names.len() && b < old_names.len() {
                            assert(names@[a] == old_names[a] && names@[b] == old_names[b]);
                        } else if a < old_names.len() {
                            assert(names@[a] == old_names[a]);
                        } else {
                            assert(names@[b] == old_names[b]);
                        }
                    }
                    assert forall|j: int| 0 <= j < k + 1 implies (#[trigger] owner@[j]) < names@.len()
                        && names@[owner@[j] as int]@ == competitors@[j]@ by {
                        if j < k {
                            assert(owner@[j] == old_owner[j]);
                            assert(names@[old_owner[j] as int] == old_names[old_owner[j] as int]);
                        }
                    }
                    assert forall|n: int| 0 <= n < names@.len() implies #[trigger] has_ship(
                        owner@,
                        names@,
                        competitors@,
                        n,
                        k + 1,
                    ) by {
                        if n < old_names.len() {
                            assert(has_ship(old_owner, old_names, competitors@, n, k as int));
                            let j = choose|j: int|
                                0 <= j < k && old_owner[j] == n && old_names[n]@
                                    == #[trigger] competitors@[j]@;
                            assert(owner@[j] == old_owner[j]);
                            assert(names@[n] == old_names[n]);
                            assert(0 <= j < k + 1 && owner@[j] == n && names@[n]@ == competitors@[j]@);
                        } else {
                            assert(owner@[k as int] == n);
                            assert(0 <= k < k + 1 && owner@[k as int] == n && names@[n]@
                                == competitors@[k as int]@);
                        }
                    }
                }
            },
        }
        k = k + 1;
    }
    CompetitorGroups { names, owner }
}

/// The grouping a finished match is rated by, or `None` when it has fewer
/// than two competitors (including no ships at all): a lone competitor
/// cannot be ranked, so such a match leaves the ladder as it was.
pub fn rated_groups(competitors: &Vec<String>) -> (r: Option<CompetitorGroups>)
    ensures
        r is None <==> single_competitor(competitors@),
        r matches Some(g) ==> groups_of(g, competitors@) && g.names@.len() >= 2,
{
    let g = group_by_competitor(competitors);
    if g.names.len() < 2 {
        proof {
            assert forall|i: int, j: int|
                0 <= i < competitors@.len() && 0 <= j < competitors@.len() implies (
                #[trigger] competitors@[i])@ == (#[trigger] competitors@[j])@ by {
                assert(g.owner@[i] < g.names@.len());
                assert(g.owner@[j] < g.names@.len());
            }
        }
        None
    } else {
        proof {
            assert(has_ship(g.owner@, g.names@, competitors@, 0, competitors@.len() as int));
            assert(has_ship(g.owner@, g.names@, competitors@, 1, competitors@.len() as int));
            let k0 = choose|k: int|
                0 <= k < competitors@.len() && g.owner@[k] == 0 && g.names@[0]@
                    == #[trigger] competitors@[k]@;
            let k1 = choose|k: int|
                0 <= k < competitors@.len() && g.owner@[k] == 1 && g.names@[1]@
                    == #[trigger] competitors@[k]@;
            assert(g.names@[0]@ != g.names@[1]@);
            assert(competitors@[k0]@ != competitors@[k1]@);
        }
        Some(g)
    }
}

} // verus!
