//! Composing a process listing from raw status records: records that do
//! not parse are silently excluded (a fleeting process may vanish between
//! discovery and read), and a record of a terminated, unreaped direct
//! child is excluded as well and its id marked for reaping, so that zombie
//! children never accumulate in the listing.

use vstd::prelude::*;

use crate::process::{parse, stat_ok, stat_value, Process, ProcessV};
use crate::split::split_tokens;

verus! {

/// Whether a record is a terminated but unreaped direct child of the
/// caller: its parent id is the caller's own and its state is the zombie
/// marker.
pub open spec fn is_zombie_child(p: ProcessV, my_pid: i32) -> bool {
    p.ppid == my_pid && p.state == 'Z'
}

/// Whether this record is to be reaped and excluded rather than listed.
pub fn should_reap(p: &Process, my_pid: i32) -> (r: bool)
    ensures
        r == is_zombie_child(p@, my_pid),
{
    p.ppid == my_pid && p.state == 'Z'
}

/// The records that make it into the listing: each raw record that parses
/// and is not a zombie child of the caller, in arrival order.
pub open spec fn listing_spec(stats: Seq<Seq<char>>, my_pid: i32) -> Seq<ProcessV>
    decreases stats.len(),
{
    if stats.len() == 0 {
        Seq::<ProcessV>::empty()
    } else {
        let toks = split_tokens(stats[0]);
        let rest = listing_spec(stats.skip(1), my_pid);
        if stat_ok(toks) && !is_zombie_child(stat_value(toks), my_pid) {
            seq![stat_value(toks)] + rest
        } else {
            rest
        }
    }
}

/// The ids to reap: each record that parses as a zombie child of the
/// caller, in arrival order.
pub open spec fn reap_list_spec(stats: Seq<Seq<char>>, my_pid: i32) -> Seq<i32>
    decreases stats.len(),
{
    if stats.len() == 0 {
        Seq::<i32>::empty()
    } else {
        let toks = split_tokens(stats[0]);
        let rest = reap_list_spec(stats.skip(1), my_pid);
        if stat_ok(toks) && is_zombie_child(stat_value(toks), my_pid) {
            seq![stat_value(toks).pid] + rest
        } else {
            rest
        }
    }
}

/// Builds the listing from the raw records read for the candidate ids:
/// returns the listed records in arrival order, and the ids of zombie
/// children to be reaped and left out.
pub fn build_listing(stats: &Vec<String>, my_pid: i32) -> (r: (Vec<Process>, Vec<i32>))
    ensures
        r.0@.map_values(|p: Process| p@) == listing_spec(stats.deep_view(), my_pid),
        r.1@ == reap_list_spec(stats.deep_view(), my_pid),
{
    let ghost all = stats.deep_view();
    let mut out: Vec<Process> = Vec::new();
    let mut reaps: Vec<i32> = Vec::new();
    let mut i: usize = 0;
    proof {
        assert(all.skip(0) =~= all);
        assert(out@.map_values(|p: Process| p@) =~= Seq::<ProcessV>::empty());
    }
    while i < stats.len()
        invariant
            i <= stats@.len(),
            all == stats.deep_view(),
            all.len() == stats@.len(),
            listing_spec(all, my_pid) == out@.map_values(|p: Process| p@) + listing_spec(
                all.skip(i as int),
                my_pid,
            ),
            reap_list_spec(all, my_pid) == reaps@ + reap_list_spec(all.skip(i as int), my_pid),
        decreases stats@.len() - i,
    {
        proof {
            assert(all[i as int] == stats@[i as int]@);
            assert(all.skip(i as int).len() > 0);
            assert(all.skip(i as int)[0] == all[i as int]);
            assert(all.skip(i as int).skip(1) =~= all.skip(i as int + 1));
        }
        let line: &String = &stats[i];
        match parse(line.as_str()) {
            Ok(p) => {
                if should_reap(&p, my_pid) {
                    let ghost old_reaps = reaps@;
                    reaps.push(p.pid);
                    proof {
                        assert(reaps@ =~= old_reaps.push(p@.pid));
                        assert(reaps@ + reap_list_spec(all.skip(i as int + 1), my_pid) =~= old_reaps
                            + reap_list_spec(all.skip(i as int), my_pid));
                    }
                } else {
                    let ghost old_out = out@;
                    out.push(p);
                    proof {
                        assert(out@.map_values(|q: Process| q@) =~= old_out.map_values(
                            |q: Process| q@,
                        ).push(p@));
                        assert(out@.map_values(|q: Process| q@) + listing_spec(
                            all.skip(i as int + 1),
                            my_pid,
                        ) =~= old_out.map_values(|q: Process| q@) + listing_spec(
                            all.skip(i as int),
                            my_pid,
                        ));
                    }
                }
            },
            Err(_) => {
            },
        }
        i += 1;
    }
    proof {
        assert(all.skip(stats@.len() as int) =~= Seq::<Seq<char>>::empty());
    }
    (out, reaps)
}

/// Nothing in a produced listing is a zombie child of the caller: every
/// such record was excluded and marked for reaping instead, so a later
/// listing built over the listed records finds nothing left to reap.
pub proof fn lemma_listing_free_of_zombie_children(stats: Seq<Seq<char>>, my_pid: i32)
    ensures
        forall|i: int|
            0 <= i < listing_spec(stats, my_pid).len() ==> !is_zombie_child(
                #[trigger] listing_spec(stats, my_pid)[i],
                my_pid,
            ),
    decreases stats.len(),
{
    if stats.len() > 0 {
        lemma_listing_free_of_zombie_children(stats.skip(1), my_pid);
        let toks = split_tokens(stats[0]);
        let rest = listing_spec(stats.skip(1), my_pid);
        let whole = listing_spec(stats, my_pid);
        if stat_ok(toks) && !is_zombie_child(stat_value(toks), my_pid) {
            assert(whole == seq![stat_value(toks)] + rest);
            assert forall|i: int| 0 <= i < whole.len() implies !is_zombie_child(
                whole[i],
                my_pid,
            ) by {
                if i > 0 {
                    assert(whole[i] == rest[i - 1]);
                }
            }
        } else {
            assert(whole == rest);
        }
    }
}

} // verus!
