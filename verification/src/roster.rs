//! The roster diff engine: set difference over rosters, first-cycle backfill,
//! exclusion filtering, and the monotone growth of the cumulative known
//! roster.
use vstd::prelude::*;

use crate::names::{contains_name, distinct_names, has_name, name_views};

verus! {

/// The byte strings that are not members of `except`: the predicate every
/// diff-engine result filters by.
pub open spec fn not_in(except: Seq<Vec<u8>>) -> spec_fn(Seq<u8>) -> bool {
    |n: Seq<u8>| !has_name(except, n)
}

/// The elements of `base` that are not members of `except`, in order.
///
/// This one operation underlies the whole diff engine: the set of players
/// that left, the first-cycle backfill, and exclusion filtering.
pub fn retain_not_in(base: &Vec<Vec<u8>>, except: &Vec<Vec<u8>>) -> (kept: Vec<Vec<u8>>)
    ensures
        name_views(kept@) == name_views(base@).filter(not_in(except@)),
        forall|j: int| #![trigger kept@[j]]
            0 <= j < kept@.len() ==> has_name(base@, kept@[j]@) && !has_name(except@, kept@[j]@),
        forall|n: Seq<u8>|
            #[trigger] has_name(base@, n) && !has_name(except@, n) ==> has_name(kept@, n),
        distinct_names(base@) ==> distinct_names(kept@),
        kept@.len() <= base@.len(),
{
    let ghost views = name_views(base@);
    let ghost pred = not_in(except@);
    let mut kept: Vec<Vec<u8>> = Vec::new();
    let mut i: usize = 0;
    proof {
        reveal(Seq::filter);
        assert(name_views(kept@) =~= Seq::<Seq<u8>>::empty());
        assert(views.take(0).filter(pred) =~= Seq::<Seq<u8>>::empty());
    }
    while i < base.len()
        invariant
            i <= base@.len(),
            kept@.len() <= i,
            forall|j: int| #![trigger kept@[j]]
                0 <= j < kept@.len() ==> !has_name(except@, kept@[j]@),
            forall|j: int| #![trigger kept@[j]]
                0 <= j < kept@.len() ==> exists|k: int| 0 <= k < i && base@[k]@ == kept@[j]@,
            forall|k: int| #![trigger base@[k]]
                0 <= k < i && !has_name(except@, base@[k]@) ==> has_name(kept@, base@[k]@),
            distinct_names(base@) ==> distinct_names(kept@),
            views == name_views(base@),
            pred == not_in(except@),
            name_views(kept@) == views.take(i as int).filter(pred),
        decreases base@.len() - i,
    {
        proof {
            reveal(Seq::filter);
            let x = views[i as int];
            let t = views.take(i as int);
            let t1 = views.take(i as int + 1);
            assert(x == base@[i as int]@);
            assert(t1 =~= t.push(x));
            assert(t.push(x).drop_last() =~= t);
            assert(t.push(x).last() == x);
            assert(t1.filter(pred) == if pred(x) {
                t.filter(pred).push(x)
            } else {
                t.filter(pred)
            });
        }
        if !contains_name(except, &base[i]) {
            let ghost pre = kept@;
            let entry = base[i].clone();
            proof {
                assert(entry@ =~= base@[i as int]@);
            }
            kept.push(entry);
            proof {
                assert(name_views(kept@) =~= name_views(pre).push(base@[i as int]@));
                assert(kept@[pre.len() as int]@ == base@[i as int]@);
                assert forall|j: int| 0 <= j < pre.len() implies #[trigger] kept@[j] == pre[j] by {}
                if distinct_names(base@) {
                    assert forall|a: int, b: int| 0 <= a < b < kept@.len() implies kept@[a]@
                        != kept@[b]@ by {
                        if b == pre.len() {
                            let k = choose|k: int| 0 <= k < i && base@[k]@ == pre[a]@;
                            assert(base@[k]@ != base@[i as int]@);
                        }
                    }
                }
                assert forall|k: int|
                    0 <= k < i + 1 && !has_name(except@, #[trigger] base@[k]@) implies has_name(
                    kept@,
                    base@[k]@,
                ) by {
                    if k < i {
                        let j = choose|j: int| 0 <= j < pre.len() && pre[j]@ == base@[k]@;
                        assert(kept@[j]@ == base@[k]@);
                    } else {
                        assert(kept@[pre.len() as int]@ == base@[k]@);
                    }
                }
            }
        }
        i += 1;
    }
    proof {
        assert(views.take(base@.len() as int) =~= views);
        assert forall|n: Seq<u8>|
            #[trigger] has_name(base@, n) && !has_name(except@, n) implies has_name(
            kept@,
            n,
        ) by {
            let k = choose|k: int| 0 <= k < base@.len() && base@[k]@ == n;
            assert(has_name(kept@, base@[k]@));
        }
    }
    kept
}

/// Identities that were online in the previous cycle but are gone from the
/// current one: each of them is to be handed to the connection supervisor.
pub fn left_players(previous: &Vec<Vec<u8>>, current: &Vec<Vec<u8>>) -> (left: Vec<Vec<u8>>)
    ensures
        name_views(left@) == name_views(previous@).filter(not_in(current@)),
        forall|j: int| #![trigger left@[j]]
            0 <= j < left@.len() ==> has_name(previous@, left@[j]@) && !has_name(
                current@,
                left@[j]@,
            ),
        forall|n: Seq<u8>|
            #[trigger] has_name(previous@, n) && !has_name(current@, n) ==> has_name(left@, n),
        distinct_names(previous@) ==> distinct_names(left@),
{
    retain_not_in(previous, current)
}

/// Identities online now that were not online in the previous cycle. This is
/// informational only: no action is taken for joined players.
pub fn joined_players(previous: &Vec<Vec<u8>>, current: &Vec<Vec<u8>>) -> (joined: Vec<Vec<u8>>)
    ensures
        name_views(joined@) == name_views(current@).filter(not_in(previous@)),
        forall|j: int| #![trigger joined@[j]]
            0 <= j < joined@.len() ==> has_name(current@, joined@[j]@) && !has_name(
                previous@,
                joined@[j]@,
            ),
        forall|n: Seq<u8>|
            #[trigger] has_name(current@, n) && !has_name(previous@, n) ==> has_name(joined@, n),
        distinct_names(current@) ==> distinct_names(joined@),
{
    retain_not_in(current, previous)
}

/// On the first successful cycle only: every identity ever seen before that is
/// absent from the current roster, so that it can be backfilled.
pub fn backfill_targets(known: &Vec<Vec<u8>>, current: &Vec<Vec<u8>>) -> (targets: Vec<Vec<u8>>)
    ensures
        name_views(targets@) == name_views(known@).filter(not_in(current@)),
        forall|j: int| #![trigger targets@[j]]
            0 <= j < targets@.len() ==> has_name(known@, targets@[j]@) && !has_name(
                current@,
                targets@[j]@,
            ),
        forall|n: Seq<u8>|
            #[trigger] has_name(known@, n) && !has_name(current@, n) ==> has_name(targets@, n),
        distinct_names(known@) ==> distinct_names(targets@),
{
    retain_not_in(known, current)
}

/// Drop every identity that belongs to the exclusion set: an excluded name
/// never reaches a roster, whatever the raw server response held.
pub fn filter_excluded(raw: &Vec<Vec<u8>>, exclusion: &Vec<Vec<u8>>) -> (roster: Vec<Vec<u8>>)
    ensures
        name_views(roster@) == name_views(raw@).filter(not_in(exclusion@)),
        forall|j: int| #![trigger roster@[j]]
            0 <= j < roster@.len() ==> has_name(raw@, roster@[j]@) && !has_name(
                exclusion@,
                roster@[j]@,
            ),
        forall|n: Seq<u8>|
            #[trigger] has_name(raw@, n) && !has_name(exclusion@, n) ==> has_name(roster@, n),
        distinct_names(raw@) ==> distinct_names(roster@),
{
    retain_not_in(raw, exclusion)
}

/// Grow the cumulative known roster by the current one: set union by
/// appending the names not seen before. The old contents are kept in place,
/// so the known roster only ever grows.
pub fn add_all_players(all_players: &mut Vec<Vec<u8>>, now_players: &Vec<Vec<u8>>)
    ensures
        old(all_players)@.len() <= final(all_players)@.len(),
        forall|j: int| #![trigger final(all_players)@[j]]
            0 <= j < old(all_players)@.len() ==> final(all_players)@[j] == old(all_players)@[j],
        forall|j: int| #![trigger final(all_players)@[j]]
            old(all_players)@.len() <= j < final(all_players)@.len() ==> has_name(
                now_players@,
                final(all_players)@[j]@,
            ),
        forall|n: Seq<u8>|
            #[trigger] has_name(now_players@, n) ==> has_name(final(all_players)@, n),
        distinct_names(old(all_players)@) ==> distinct_names(final(all_players)@),
{
    let ghost orig = all_players@;
    let mut i: usize = 0;
    while i < now_players.len()
        invariant
            i <= now_players@.len(),
            orig.len() <= all_players@.len(),
            forall|j: int| #![trigger all_players@[j]]
                0 <= j < orig.len() ==> all_players@[j] == orig[j],
            forall|j: int| #![trigger all_players@[j]]
                orig.len() <= j < all_players@.len() ==> has_name(now_players@, all_players@[j]@),
            forall|k: int| #![trigger now_players@[k]]
                0 <= k < i ==> has_name(all_players@, now_players@[k]@),
            distinct_names(orig) ==> distinct_names(all_players@),
        decreases now_players@.len() - i,
    {
        if !contains_name(all_players, &now_players[i]) {
            let ghost pre = all_players@;
            let entry = now_players[i].clone();
            proof {
                assert(entry@ =~= now_players@[i as int]@);
            }
            all_players.push(entry);
            proof {
                assert(all_players@[pre.len() as int]@ == now_players@[i as int]@);
                if distinct_names(orig) {
                    assert forall|a: int, b: int| 0 <= a < b < all_players@.len() implies
                        all_players@[a]@ != all_players@[b]@ by {
                        if b == pre.len() {
                            assert(!has_name(pre, now_players@[i as int]@));
                            assert(pre[a]@ != now_players@[i as int]@);
                        }
                    }
                }
                assert forall|k: int|
                    0 <= k < i + 1 implies has_name(all_players@, #[trigger] now_players@[k]@) by {
                    if k < i {
                        let j = choose|j: int| 0 <= j < pre.len() && pre[j]@ == now_players@[k]@;
                        assert(all_players@[j]@ == now_players@[k]@);
                    } else {
                        assert(all_players@[pre.len() as int]@ == now_players@[k]@);
                    }
                }
            }
        } else {
            proof {
                assert forall|k: int|
                    0 <= k < i + 1 implies has_name(all_players@, #[trigger] now_players@[k]@) by {}
            }
        }
        i += 1;
    }
    proof {
        assert forall|n: Seq<u8>| #[trigger] has_name(now_players@, n) implies has_name(
            all_players@,
            n,
        ) by {
            let k = choose|k: int| 0 <= k < now_players@.len() && now_players@[k]@ == n;
            assert(has_name(all_players@, now_players@[k]@));
        }
    }
}

/// Exclusion is enforced on the known roster too: growing a known roster
/// that holds no excluded name by a current roster that holds none leaves a
/// roster that still holds none, whatever the raw server response held. The
/// first three premises are exactly what growing promises of its result.
pub proof fn lemma_known_roster_exclusion(
    known: Seq<Vec<u8>>,
    grown: Seq<Vec<u8>>,
    now: Seq<Vec<u8>>,
    exclusion: Seq<Vec<u8>>,
)
    requires
        known.len() <= grown.len(),
        forall|j: int| #![trigger grown[j]] 0 <= j < known.len() ==> grown[j] == known[j],
        forall|j: int| #![trigger grown[j]]
            known.len() <= j < grown.len() ==> has_name(now, grown[j]@),
        forall|j: int| #![trigger known[j]] 0 <= j < known.len() ==> !has_name(exclusion, known[j]@),
        forall|j: int| #![trigger now[j]] 0 <= j < now.len() ==> !has_name(exclusion, now[j]@),
    ensures
        forall|j: int| #![trigger grown[j]] 0 <= j < grown.len() ==> !has_name(exclusion, grown[j]@),
{
    assert forall|j: int| 0 <= j < grown.len() implies !has_name(exclusion, #[trigger] grown[j]@) by {
        if j >= known.len() {
            let k = choose|k: int| 0 <= k < now.len() && now[k]@ == grown[j]@;
            assert(!has_name(exclusion, now[k]@));
        }
    }
}

} // verus!
