//! How the manager spreads tunnels over clients.

use vstd::prelude::*;
use vstd::string::*;
use crate::config::ManagedClient;
use crate::database::UnassignedTunnel;
use crate::maps::{count_where, lemma_count_bound, lemma_count_take};
use crate::text::opt_text;
use crate::text_map::TextMap;

verus! {

/// What `counts` says of a client: none where it says nothing.
pub open spec fn load_of(counts: Map<Seq<char>, usize>, client: Seq<char>) -> nat {
    if counts.contains_key(client) {
        counts[client] as nat
    } else {
        0
    }
}

/// A client that an online tunnel names is this one.
pub open spec fn names_client(client: Seq<char>) -> spec_fn(Option<String>) -> bool {
    |c: Option<String>| opt_text(c) == Some(client)
}

/// Counts how many tunnels each client has, from the client of each tunnel.
pub fn count_per_client(clients: &[Option<String>]) -> (r: TextMap<usize>)
    ensures
        r.wf(),
        forall|k: Seq<char>| #[trigger]
            load_of(r@, k) == count_where(clients@, names_client(k)),
        forall|k: Seq<char>| #[trigger] load_of(r@, k) <= clients@.len(),
{
    let mut counts: TextMap<usize> = TextMap::new();
    let mut i: usize = 0;
    while i < clients.len()
        invariant
            i <= clients@.len(),
            counts.wf(),
            forall|k: Seq<char>| #[trigger]
                load_of(counts@, k) == count_where(clients@.take(i as int), names_client(k)),
        decreases clients@.len() - i,
    {
        let ghost before = counts@;
        if let Some(id) = &clients[i] {
            proof {
                lemma_count_bound(clients@.take(i as int), names_client(id@));
                assert(load_of(before, id@) <= i);
            }
            let c: usize = match counts.get(id.as_str()) {
                Some(c) => *c,
                None => 0,
            };
            counts.insert(id.as_str(), c + 1);
        }
        proof {
            assert forall|k: Seq<char>| #[trigger] load_of(counts@, k) == count_where(
                clients@.take(i + 1),
                names_client(k),
            ) by {
                lemma_count_take(clients@, names_client(k), i as int);
                assert(load_of(before, k) == count_where(
                    clients@.take(i as int),
                    names_client(k),
                ));
            }
        }
        i += 1;
    }
    proof {
        assert(clients@.take(i as int) =~= clients@);
        assert forall|k: Seq<char>| #[trigger] load_of(counts@, k) <= clients@.len() by {
            lemma_count_bound(clients@, names_client(k));
        }
    }
    counts
}

/// A tunnel given to a client, by its position in the configuration.
#[derive(Debug, Clone, Copy, PartialEq, Eq)]
pub struct Assignment {
    pub tunnel_id: u32,
    pub client: usize,
}

/// The first client with the fewest tunnels is at position `i`.
pub open spec fn first_least_loaded(
    clients: Seq<ManagedClient>,
    counts: Map<Seq<char>, usize>,
    i: int,
) -> bool {
    &&& 0 <= i < clients.len()
    &&& forall|j: int|
        0 <= j < clients.len() ==> load_of(counts, clients[i].id@) <= load_of(
            counts,
            (#[trigger] clients[j]).id@,
        )
    &&& forall|j: int|
        0 <= j < i ==> load_of(counts, clients[i].id@) < load_of(
            counts,
            (#[trigger] clients[j]).id@,
        )
}

/// The counts after one more tunnel for a client.
pub open spec fn one_more(counts: Map<Seq<char>, usize>, client: Seq<char>) -> Map<
    Seq<char>,
    usize,
> {
    counts.insert(client, (load_of(counts, client) + 1) as usize)
}

/// The counts after some assignments.
pub open spec fn counts_after(
    counts: Map<Seq<char>, usize>,
    clients: Seq<ManagedClient>,
    given: Seq<Assignment>,
) -> Map<Seq<char>, usize>
    decreases given.len(),
{
    if given.len() == 0 {
        counts
    } else {
        one_more(
            counts_after(counts, clients, given.drop_last()),
            clients[given.last().client as int].id@,
        )
    }
}

/// The `j`th tunnel went to the client that had the fewest at its turn.
pub open spec fn fair_step(
    counts: Map<Seq<char>, usize>,
    clients: Seq<ManagedClient>,
    given: Seq<Assignment>,
    j: int,
) -> bool {
    first_least_loaded(
        clients,
        counts_after(counts, clients, given.take(j)),
        given[j].client as int,
    )
}

/// Each tunnel went to the client that had the fewest at its turn.
pub open spec fn fairly_given(
    counts: Map<Seq<char>, usize>,
    clients: Seq<ManagedClient>,
    given: Seq<Assignment>,
) -> bool {
    forall|j: int| 0 <= j < given.len() ==> #[trigger] fair_step(counts, clients, given, j)
}

fn least_loaded(clients: &[ManagedClient], counts: &TextMap<usize>) -> (r: usize)
    requires
        clients@.len() > 0,
        counts.wf(),
    ensures
        first_least_loaded(clients@, counts@, r as int),
{
    let mut best: usize = 0;
    let mut best_load: usize = match counts.get(clients[0].id.as_str()) {
        Some(c) => *c,
        None => 0,
    };
    let mut i: usize = 1;
    while i < clients.len()
        invariant
            1 <= i <= clients@.len(),
            best < i,
            counts.wf(),
            best_load == load_of(counts@, clients@[best as int].id@),
            forall|j: int|
                0 <= j < i ==> best_load <= load_of(counts@, (#[trigger] clients@[j]).id@),
            forall|j: int|
                0 <= j < best ==> best_load < load_of(counts@, (#[trigger] clients@[j]).id@),
        decreases clients@.len() - i,
    {
        let load: usize = match counts.get(clients[i].id.as_str()) {
            Some(c) => *c,
            None => 0,
        };
        if load < best_load {
            best = i;
            best_load = load;
        }
        i += 1;
    }
    best
}

/// Gives every tunnel to the client that has the fewest at its turn, the first
/// one of several. Where there is no client, nothing is given.
pub fn assign_tunnels(
    clients: &[ManagedClient],
    unassigned: &[UnassignedTunnel],
    counts: TextMap<usize>,
) -> (r: Vec<Assignment>)
    requires
        counts.wf(),
        forall|k: Seq<char>| #[trigger]
            load_of(counts@, k) + unassigned@.len() <= usize::MAX,
    ensures
        r@.len() == if clients@.len() == 0 {
            0
        } else {
            unassigned@.len()
        },
        forall|j: int|
            0 <= j < r@.len() ==> (#[trigger] r@[j]).tunnel_id == unassigned@[j].id,
        fairly_given(counts@, clients@, r@),
{
    let mut r: Vec<Assignment> = Vec::new();
    if clients.len() == 0 {
        return r;
    }
    let ghost start = counts@;
    let mut counts = counts;
    let mut i: usize = 0;
    while i < unassigned.len()
        invariant
            clients@.len() > 0,
            i <= unassigned@.len(),
            r@.len() == i,
            counts.wf(),
            counts@ == counts_after(start, clients@, r@),
            forall|k: Seq<char>| #[trigger]
                load_of(counts@, k) + (unassigned@.len() - i) <= usize::MAX,
            forall|j: int| 0 <= j < i ==> (#[trigger] r@[j]).tunnel_id == unassigned@[j].id,
            fairly_given(start, clients@, r@),
        decreases unassigned@.len() - i,
    {
        let best: usize = least_loaded(clients, &counts);
        let ghost before = r@;
        let ghost id = clients@[best as int].id@;
        assert(load_of(counts@, id) + (unassigned@.len() - i) <= usize::MAX);
        let load: usize = match counts.get(clients[best].id.as_str()) {
            Some(c) => *c,
            None => 0,
        };
        let ghost counts0 = counts@;
        counts.insert(clients[best].id.as_str(), load + 1);
        r.push(Assignment { tunnel_id: unassigned[i].id, client: best });
        proof {
            assert(r@.drop_last() =~= before);
            assert forall|j: int| 0 <= j < r@.len() implies #[trigger] fair_step(
                start,
                clients@,
                r@,
                j,
            ) by {
                assert(r@.take(j) =~= before.take(j));
                if j < before.len() {
                    assert(fair_step(start, clients@, before, j));
                    assert(r@[j] == before[j]);
                } else {
                    assert(before.take(j) =~= before);
                }
            }
            assert forall|k: Seq<char>| #[trigger] load_of(counts@, k) + (unassigned@.len() - (i
                + 1)) <= usize::MAX by {
                assert(load_of(counts0, k) + (unassigned@.len() - i) <= usize::MAX);
            }
        }
        i += 1;
    }
    r
}

/// An id is this one.
pub open spec fn equals_id(id: u32) -> spec_fn(u32) -> bool {
    |x: u32| x == id
}

/// How often an id occurs.
pub open spec fn occurrences(ids: Seq<u32>, id: u32) -> nat {
    count_where(ids, equals_id(id))
}

/// The first of the ids that occur most often stands at position `i`.
pub open spec fn first_most_frequent(ids: Seq<u32>, i: int) -> bool {
    &&& 0 <= i < ids.len()
    &&& forall|j: int|
        0 <= j < ids.len() ==> occurrences(ids, #[trigger] ids[j]) <= occurrences(ids, ids[i])
    &&& forall|j: int|
        0 <= j < i ==> occurrences(ids, #[trigger] ids[j]) < occurrences(ids, ids[i])
}

fn count_id(ids: &[u32], id: u32) -> (n: usize)
    ensures
        n == occurrences(ids@, id),
{
    let mut n: usize = 0;
    let mut i: usize = 0;
    while i < ids.len()
        invariant
            i <= ids@.len(),
            n <= i,
            n == count_where(ids@.take(i as int), equals_id(id)),
        decreases ids@.len() - i,
    {
        proof {
            lemma_count_take(ids@, equals_id(id), i as int);
        }
        if ids[i] == id {
            n = n + 1;
        }
        i += 1;
    }
    assert(ids@.take(i as int) =~= ids@);
    n
}

/// The server that a client is directed to: the one that hosts most of its
/// tunnels. `server_ids` holds the server of each tunnel that names one; where
/// none does, there is nothing to go by and the client stays where it is.
pub fn mapping_server(server_ids: &[u32]) -> (r: Option<u32>)
    ensures
        match r {
            Some(id) => exists|i: int| #[trigger]
                first_most_frequent(server_ids@, i) && id == server_ids@[i],
            None => server_ids@.len() == 0,
        },
{
    if server_ids.len() == 0 {
        return None;
    }
    let mut best: usize = 0;
    let mut most: usize = count_id(server_ids, server_ids[0]);
    let mut i: usize = 1;
    while i < server_ids.len()
        invariant
            1 <= i <= server_ids@.len(),
            best < i,
            most == occurrences(server_ids@, server_ids@[best as int]),
            forall|j: int|
                0 <= j < i ==> occurrences(server_ids@, #[trigger] server_ids@[j]) <= most,
            forall|j: int|
                0 <= j < best ==> occurrences(server_ids@, #[trigger] server_ids@[j]) < most,
        decreases server_ids@.len() - i,
    {
        let n: usize = count_id(server_ids, server_ids[i]);
        if n > most {
            best = i;
            most = n;
        }
        i += 1;
    }
    assert(first_most_frequent(server_ids@, best as int));
    Some(server_ids[best])
}

/// No count can overflow by as many assignments as are left.
pub open spec fn room_for(counts: Map<Seq<char>, usize>, n: nat) -> bool {
    forall|k: Seq<char>| #[trigger] load_of(counts, k) + n <= usize::MAX
}

/// The tunnels are spread evenly: a client that was given one ends with at most
/// one more than any other client has.
pub proof fn law_assignment_is_balanced(
    counts: Map<Seq<char>, usize>,
    clients: Seq<ManagedClient>,
    given: Seq<Assignment>,
    j: int,
    other: int,
)
    requires
        room_for(counts, given.len()),
        fairly_given(counts, clients, given),
        0 <= j < given.len(),
        0 <= other < clients.len(),
    ensures
        load_of(
            counts_after(counts, clients, given),
            clients[given[j].client as int].id@,
        ) <= load_of(counts_after(counts, clients, given), clients[other].id@) + 1,
    decreases given.len(),
{
    let init = given.drop_last();
    let n = given.len() - 1;
    let before = counts_after(counts, clients, init);
    let got = clients[given.last().client as int].id@;
    let mine = clients[given[j].client as int].id@;
    let theirs = clients[other].id@;
    assert(fair_step(counts, clients, given, n));
    assert(given.take(n) =~= init);
    assert(load_of(before, got) <= load_of(before, theirs));
    lemma_room_shrinks(counts, given.len(), init.len());
    lemma_loads_bounded(counts, clients, init, got);
    lemma_one_more(before, got, mine);
    lemma_one_more(before, got, theirs);
    if j < n {
        lemma_prefix_fair(counts, clients, given);
        law_assignment_is_balanced(counts, clients, init, j, other);
        assert(init[j] == given[j]);
    }
}

proof fn lemma_room_shrinks(counts: Map<Seq<char>, usize>, n: nat, m: nat)
    requires
        room_for(counts, n),
        m <= n,
    ensures
        room_for(counts, m),
        forall|k: Seq<char>| #[trigger] load_of(counts, k) + n <= usize::MAX,
{
    assert forall|k: Seq<char>| #[trigger] load_of(counts, k) + m <= usize::MAX by {
        assert(load_of(counts, k) + n <= usize::MAX);
    }
}

proof fn lemma_one_more(counts: Map<Seq<char>, usize>, client: Seq<char>, k: Seq<char>)
    requires
        load_of(counts, client) + 1 <= usize::MAX,
    ensures
        load_of(one_more(counts, client), k) == load_of(counts, k) + if k == client {
            1nat
        } else {
            0nat
        },
{
}

/// Giving tunnels adds at most as many to a client as were given.
proof fn lemma_loads_bounded(
    counts: Map<Seq<char>, usize>,
    clients: Seq<ManagedClient>,
    given: Seq<Assignment>,
    k: Seq<char>,
)
    requires
        room_for(counts, given.len()),
    ensures
        load_of(counts_after(counts, clients, given), k) <= load_of(counts, k) + given.len(),
    decreases given.len(),
{
    if given.len() > 0 {
        let init = given.drop_last();
        let got = clients[given.last().client as int].id@;
        lemma_room_shrinks(counts, given.len(), init.len());
        lemma_loads_bounded(counts, clients, init, k);
        lemma_loads_bounded(counts, clients, init, got);
        assert(load_of(counts, got) + given.len() <= usize::MAX);
        lemma_one_more(counts_after(counts, clients, init), got, k);
    }
}

proof fn lemma_prefix_fair(
    counts: Map<Seq<char>, usize>,
    clients: Seq<ManagedClient>,
    given: Seq<Assignment>,
)
    requires
        given.len() > 0,
        fairly_given(counts, clients, given),
    ensures
        fairly_given(counts, clients, given.drop_last()),
{
    let init = given.drop_last();
    assert forall|j: int| 0 <= j < init.len() implies #[trigger] fair_step(
        counts,
        clients,
        init,
        j,
    ) by {
        assert(fair_step(counts, clients, given, j));
        assert(init.take(j) =~= given.take(j));
        assert(init[j] == given[j]);
    }
}

} // verus!
