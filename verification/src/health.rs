//! The startup health-probe policy: which instances join the routing
//! table, and whether the process may start serving at all.
//!
//! Probing itself is transport work done outside the library — for each
//! configured instance the runner opens a connection, writes a known probe
//! key and reads it back, and records how far it got. The policy over
//! those recorded outcomes is decided here: in client-side mode an
//! instance that failed any step is excluded and the process starts only
//! if at least one instance probed clean; in cluster mode a single probe
//! against the logical handle decides startup as a whole.

use crate::outcome::StartupError;
use vstd::prelude::*;

verus! {

/// How far the startup probe of one instance got.
#[derive(Debug, Clone, Copy, PartialEq, Eq)]
pub enum ProbeOutcome {
    /// No connection could be opened.
    ConnectFailed,
    /// Connected, but the probe key could not be written.
    WriteFailed,
    /// Written, but the probe key could not be read back.
    ReadFailed,
    /// Connect, write and read-back all succeeded.
    Passed,
}

/// An instance participates in routing only when every probe step passed.
pub open spec fn probe_passed(outcome: ProbeOutcome) -> bool {
    outcome is Passed
}

/// The hosts that survive probing, in their configured order: the
/// subsequence of `hosts` whose probe at the same position passed.
pub open spec fn surviving_hosts(hosts: Seq<Seq<char>>, outcomes: Seq<ProbeOutcome>) -> Seq<
    Seq<char>,
>
    decreases hosts.len(),
{
    if hosts.len() == 0 {
        Seq::empty()
    } else if probe_passed(outcomes[hosts.len() - 1]) {
        surviving_hosts(hosts.drop_last(), outcomes).push(hosts.last())
    } else {
        surviving_hosts(hosts.drop_last(), outcomes)
    }
}

/// Law: an instance that failed to accept the probe write followed by a
/// matching read never appears in the post-startup routing table. Stated
/// for a host address all of whose occurrences failed probing (an address
/// listed twice counts as two instances, probed independently).
pub proof fn lemma_failed_instance_excluded(
    hosts: Seq<Seq<char>>,
    outcomes: Seq<ProbeOutcome>,
    host: Seq<char>,
)
    requires
        forall|i: int| 0 <= i < hosts.len() && hosts[i] == host ==> !probe_passed(outcomes[i]),
    ensures
        !surviving_hosts(hosts, outcomes).contains(host),
    decreases hosts.len(),
{
    if hosts.len() > 0 {
        assert(forall|i: int|
            0 <= i < hosts.drop_last().len() && hosts.drop_last()[i] == host ==> !probe_passed(
                outcomes[i],
            ));
        lemma_failed_instance_excluded(hosts.drop_last(), outcomes, host);
        if probe_passed(outcomes[hosts.len() - 1]) {
            let rest = surviving_hosts(hosts.drop_last(), outcomes);
            assert(hosts.last() != host);
            assert forall|k: int|
                0 <= k < rest.push(hosts.last()).len() implies rest.push(hosts.last())[k]
                != host by {
                if k < rest.len() {
                    assert(!rest.contains(host));
                }
            }
        }
    }
}

/// Every host in the surviving table stood at some configured position
/// whose probe passed.
pub proof fn lemma_surviving_host_probed_clean(
    hosts: Seq<Seq<char>>,
    outcomes: Seq<ProbeOutcome>,
    host: Seq<char>,
)
    requires
        surviving_hosts(hosts, outcomes).contains(host),
    ensures
        exists|i: int| 0 <= i < hosts.len() && hosts[i] == host && probe_passed(outcomes[i]),
    decreases hosts.len(),
{
    if hosts.len() > 0 {
        let rest = surviving_hosts(hosts.drop_last(), outcomes);
        if probe_passed(outcomes[hosts.len() - 1]) && hosts.last() == host {
            assert(hosts[hosts.len() - 1] == host);
        } else {
            assert(rest.contains(host)) by {
                let k = choose|k: int|
                    0 <= k < surviving_hosts(hosts, outcomes).len() && surviving_hosts(
                        hosts,
                        outcomes,
                    )[k] == host;
                assert(rest[k] == host);
            }
            lemma_surviving_host_probed_clean(hosts.drop_last(), outcomes, host);
            let i = choose|i: int|
                0 <= i < hosts.drop_last().len() && hosts.drop_last()[i] == host && probe_passed(
                    outcomes[i],
                );
            assert(hosts[i] == host);
        }
    }
}

/// The positions record is faithful: entry `j` of the table is the host
/// at `positions[j]`, whose probe passed; positions rise strictly; and
/// every configured position whose probe passed appears.
pub open spec fn positions_describe_table(
    hosts: Seq<Seq<char>>,
    outcomes: Seq<ProbeOutcome>,
    table: Seq<Seq<char>>,
    positions: Seq<usize>,
) -> bool {
    &&& positions.len() == table.len()
    &&& forall|j: int| #![trigger positions[j]]
        0 <= j < positions.len() ==> positions[j] < hosts.len() && probe_passed(
            outcomes[positions[j] as int],
        ) && table[j] == hosts[positions[j] as int]
    &&& forall|j1: int, j2: int| #![trigger positions[j1], positions[j2]]
        0 <= j1 < j2 < positions.len() ==> positions[j1] < positions[j2]
    &&& forall|k: int| #![trigger outcomes[k]]
        0 <= k < outcomes.len() && probe_passed(outcomes[k]) ==> exists|j: int|
            #![trigger positions[j]]
            0 <= j < positions.len() && positions[j] == k
}

/// Builds the routing table from the probe record, client-side mode,
/// together with the configured position each entry was taken from: entry
/// `j` of the table is `hosts[positions[j]]`, whose probe passed. The
/// positions are strictly increasing and complete — every position whose
/// probe passed appears — so a runner that keeps an opened client beside
/// each configured descriptor can carry over exactly the clients of the
/// surviving instances, and no client of a failed one. When not a single
/// instance probed clean the result is `ProbeFailure`: the process must
/// never start serving into an empty table.
pub fn build_routing_table_with_positions(
    hosts: &Vec<String>,
    outcomes: &Vec<ProbeOutcome>,
) -> (result: Result<(Vec<String>, Vec<usize>), StartupError>)
    requires
        hosts@.len() == outcomes@.len(),
    ensures
        result matches Ok(pair) ==> (pair.0.deep_view() == surviving_hosts(
            hosts.deep_view(),
            outcomes@,
        ) && pair.0@.len() > 0 && positions_describe_table(
            hosts.deep_view(),
            outcomes@,
            pair.0.deep_view(),
            pair.1@,
        )),
        result is Ok <==> exists|i: int| 0 <= i < outcomes@.len() && probe_passed(outcomes@[i]),
        result matches Err(e) ==> e is ProbeFailure,
{
    let mut table: Vec<String> = Vec::new();
    let mut positions: Vec<usize> = Vec::new();
    let n = hosts.len();
    let mut i: usize = 0;
    while i < n
        invariant
            n == hosts@.len() == outcomes@.len(),
            i <= n,
            table@.len() == positions@.len(),
            table.deep_view() == surviving_hosts(hosts.deep_view().take(i as int), outcomes@),
            forall|j: int| #![trigger positions@[j]]
                0 <= j < positions@.len() ==> positions@[j] < i && probe_passed(
                    outcomes@[positions@[j] as int],
                ) && table.deep_view()[j] == hosts.deep_view()[positions@[j] as int],
            forall|j1: int, j2: int| #![trigger positions@[j1], positions@[j2]]
                0 <= j1 < j2 < positions@.len() ==> positions@[j1] < positions@[j2],
            forall|k: int| #![trigger outcomes@[k]]
                0 <= k < i && probe_passed(outcomes@[k]) ==> exists|j: int|
                    #![trigger positions@[j]]
                    0 <= j < positions@.len() && positions@[j] == k,
        decreases n - i,
    {
        let ghost prefix = hosts.deep_view().take(i as int);
        let ghost next = hosts.deep_view().take(i as int + 1);
        proof {
            assert(next.drop_last() =~= prefix);
            assert(next.last() == hosts.deep_view()[i as int]);
        }
        if matches!(outcomes[i], ProbeOutcome::Passed) {
            let ghost prev_positions = positions@;
            let ghost prev_table = table.deep_view();
            table.push(hosts[i].clone());
            positions.push(i);
            proof {
                assert(table.deep_view() =~~= surviving_hosts(next, outcomes@));
                assert(surviving_hosts(next, outcomes@) == prev_table.push(
                    hosts.deep_view()[i as int],
                ));
                assert forall|j: int|
                    0 <= j < positions@.len() implies positions@[j] < i + 1 && probe_passed(
                    outcomes@[positions@[j] as int],
                ) && table.deep_view()[j] == hosts.deep_view()[positions@[j] as int] by {
                    if j < prev_positions.len() {
                        assert(positions@[j] == prev_positions[j]);
                        assert(prev_positions[j] < i);
                        assert(probe_passed(outcomes@[prev_positions[j] as int]));
                        assert(table.deep_view()[j] == prev_table[j]);
                    } else {
                        assert(positions@[j] == i as usize);
                        assert(table.deep_view()[j] == hosts.deep_view()[i as int]);
                    }
                }
                assert forall|j1: int, j2: int|
                    0 <= j1 < j2 < positions@.len() implies positions@[j1] < positions@[j2] by {
                    if j2 < prev_positions.len() {
                        assert(positions@[j1] == prev_positions[j1]);
                        assert(positions@[j2] == prev_positions[j2]);
                    } else {
                        assert(positions@[j2] == i as usize);
                        assert(positions@[j1] == prev_positions[j1]);
                        assert(prev_positions[j1] < i);
                    }
                }
                assert forall|k: int|
                    0 <= k < i + 1 && probe_passed(outcomes@[k]) implies exists|j: int|
                    0 <= j < positions@.len() && positions@[j] == k by {
                    if k < i {
                        let j = choose|j: int|
                            0 <= j < prev_positions.len() && prev_positions[j] == k;
                        assert(positions@[j] == k);
                    } else {
                        assert(positions@[positions@.len() - 1] == k);
                    }
                }
            }
        } else {
            proof {
                assert(table.deep_view() =~~= surviving_hosts(next, outcomes@));
            }
        }
        i = i + 1;
    }
    proof {
        assert(hosts.deep_view().take(n as int) =~= hosts.deep_view());
    }
    if table.len() > 0 {
        proof {
            assert(positions@.len() > 0);
            assert(probe_passed(outcomes@[positions@[0] as int]));
            assert(positions_describe_table(
                hosts.deep_view(),
                outcomes@,
                table.deep_view(),
                positions@,
            ));
        }
        Ok((table, positions))
    } else {
        Err(StartupError::ProbeFailure)
    }
}

/// Builds the routing table from the probe record, client-side mode: the
/// surviving hosts in configured order, or `ProbeFailure` when not a
/// single instance probed clean — the process must never start serving
/// into an empty table.
pub fn build_routing_table(hosts: &Vec<String>, outcomes: &Vec<ProbeOutcome>) -> (result: Result<
    Vec<String>,
    StartupError,
>)
    requires
        hosts@.len() == outcomes@.len(),
    ensures
        result matches Ok(table) ==> table.deep_view() == surviving_hosts(
            hosts.deep_view(),
            outcomes@,
        ) && table@.len() > 0,
        result is Ok <==> exists|i: int|
            0 <= i < outcomes@.len() && probe_passed(outcomes@[i]),
        result matches Err(e) ==> e is ProbeFailure,
{
    match build_routing_table_with_positions(hosts, outcomes) {
        Ok((table, _positions)) => Ok(table),
        Err(e) => Err(e),
    }
}

/// Startup decision in cluster mode: one probe against the logical cluster
/// handle decides the whole process — any failure is fatal, since a
/// cluster client cannot be partially excluded at the instance level.
pub fn cluster_startup_decision(outcome: ProbeOutcome) -> (result: Result<(), StartupError>)
    ensures
        result is Ok <==> probe_passed(outcome),
        result matches Err(e) ==> e is ProbeFailure,
{
    match outcome {
        ProbeOutcome::Passed => Ok(()),
        _ => Err(StartupError::ProbeFailure),
    }
}

} // verus!
