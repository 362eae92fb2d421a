//! Many connections at once.
//!
//! Every connection runs its own read loop, and the reads of different
//! connections arrive in whatever order their sockets deliver them. This
//! module models a server as the phases of its connections and an arrival as
//! a read tagged with the connection whose socket gave it, and shows that the
//! order of arrival across connections changes nothing for any one of them.

use vstd::prelude::*;
use crate::connection::run;
use crate::connection::step;
use crate::connection::Action;
use crate::connection::Phase;
use crate::connection::Read;
use crate::dispatch::InputCall;
use crate::packet::delta;

verus! {

/// A read together with the connection whose socket gave it.
pub struct Arrival {
    pub connection: nat,
    pub read: Read,
}

/// An action together with the connection that asks for it.
pub struct Request {
    pub connection: nat,
    pub action: Action,
}

/// The reads among `arrivals` that came from connection `id`, in order.
pub open spec fn reads_of(arrivals: Seq<Arrival>, id: nat) -> Seq<Read>
    decreases arrivals.len(),
{
    if arrivals.len() == 0 {
        Seq::empty()
    } else if arrivals[0].connection == id {
        seq![arrivals[0].read] + reads_of(arrivals.drop_first(), id)
    } else {
        reads_of(arrivals.drop_first(), id)
    }
}

/// The actions among `requests` that connection `id` asks for, in order.
pub open spec fn actions_of(requests: Seq<Request>, id: nat) -> Seq<Action>
    decreases requests.len(),
{
    if requests.len() == 0 {
        Seq::empty()
    } else if requests[0].connection == id {
        seq![requests[0].action] + actions_of(requests.drop_first(), id)
    } else {
        actions_of(requests.drop_first(), id)
    }
}

/// True when connection `id` is known to the server and still reading.
pub open spec fn reading(phases: Map<nat, Phase>, id: nat) -> bool {
    phases.dom().contains(id) && phases[id] == Phase::Reading
}

/// The server as a whole: the arrivals are taken one by one, each steps the
/// connection it belongs to and leaves every other connection alone. What
/// arrives for a connection that is closed or unknown is never read.
pub open spec fn serve(phases: Map<nat, Phase>, arrivals: Seq<Arrival>) -> (
    Map<nat, Phase>,
    Seq<Request>,
)
    decreases arrivals.len(),
{
    if arrivals.len() == 0 {
        (phases, Seq::empty())
    } else {
        let id = arrivals[0].connection;
        if reading(phases, id) {
            let (next, action) = step(phases[id], arrivals[0].read);
            let (end, requests) = serve(phases.insert(id, next), arrivals.drop_first());
            (end, seq![Request { connection: id, action }] + requests)
        } else {
            serve(phases, arrivals.drop_first())
        }
    }
}

/// A connection that is not reading asks for nothing, whatever arrives.
pub proof fn lemma_run_when_closed(phase: Phase, reads: Seq<Read>)
    requires
        phase != Phase::Reading,
    ensures
        run(phase, reads) == (phase, Seq::<Action>::empty()),
{
}

/// Connections do not touch each other. However the reads of many
/// connections interleave, each connection ends in the phase, and asks for
/// the actions, of a session that saw its own reads alone.
pub proof fn lemma_connections_are_independent(
    phases: Map<nat, Phase>,
    arrivals: Seq<Arrival>,
    id: nat,
)
    requires
        phases.dom().contains(id),
    ensures
        serve(phases, arrivals).0.dom().contains(id),
        serve(phases, arrivals).0[id] == run(phases[id], reads_of(arrivals, id)).0,
        actions_of(serve(phases, arrivals).1, id) == run(phases[id], reads_of(arrivals, id)).1,
    decreases arrivals.len(),
{
    if arrivals.len() == 0 {
    } else {
        let first = arrivals[0];
        let rest = arrivals.drop_first();
        if reading(phases, first.connection) {
            let (next, action) = step(phases[first.connection], first.read);
            let after = phases.insert(first.connection, next);
            lemma_connections_are_independent(after, rest, id);
            let requests = serve(after, rest).1;
            let all = seq![Request { connection: first.connection, action }] + requests;
            assert(all.drop_first() =~= requests);
            if first.connection == id {
                let own = seq![first.read] + reads_of(rest, id);
                assert(own.drop_first() =~= reads_of(rest, id));
            }
        } else {
            lemma_connections_are_independent(phases, rest, id);
            if first.connection == id {
                lemma_run_when_closed(phases[id], reads_of(arrivals, id));
                lemma_run_when_closed(phases[id], reads_of(rest, id));
            }
        }
    }
}

/// Two connections that each send one move get each its own displacements,
/// whichever of the two packets arrives first.
pub proof fn lemma_concurrent_moves(a: nat, b: nat, ours: (u8, u8), theirs: (u8, u8), swap: bool)
    requires
        a != b,
        ours.0 & 0x80 != 0,
        theirs.0 & 0x80 != 0,
    ensures
        ({
            let from_a = Arrival { connection: a, read: Read::Bytes(seq![ours.0, ours.1]) };
            let from_b = Arrival { connection: b, read: Read::Bytes(seq![theirs.0, theirs.1]) };
            let arrivals = if swap {
                seq![from_b, from_a]
            } else {
                seq![from_a, from_b]
            };
            let phases = Map::<nat, Phase>::empty().insert(a, Phase::Reading).insert(
                b,
                Phase::Reading,
            );
            let requests = serve(phases, arrivals).1;
            &&& actions_of(requests, a) == seq![
                Action::Dispatch {
                    call: InputCall::MoveRelative {
                        dx: delta(ours.0) as i32,
                        dy: delta(ours.1) as i32,
                    },
                },
            ]
            &&& actions_of(requests, b) == seq![
                Action::Dispatch {
                    call: InputCall::MoveRelative {
                        dx: delta(theirs.0) as i32,
                        dy: delta(theirs.1) as i32,
                    },
                },
            ]
        }),
{
    let from_a = Arrival { connection: a, read: Read::Bytes(seq![ours.0, ours.1]) };
    let from_b = Arrival { connection: b, read: Read::Bytes(seq![theirs.0, theirs.1]) };
    let arrivals = if swap {
        seq![from_b, from_a]
    } else {
        seq![from_a, from_b]
    };
    let phases = Map::<nat, Phase>::empty().insert(a, Phase::Reading).insert(b, Phase::Reading);
    lemma_connections_are_independent(phases, arrivals, a);
    lemma_connections_are_independent(phases, arrivals, b);
    lemma_single_read(arrivals, a, from_a.read, swap);
    lemma_single_read(arrivals, b, from_b.read, !swap);
    crate::packet::lemma_move(ours.0, ours.1);
    crate::packet::lemma_move(theirs.0, theirs.1);
    reveal_with_fuel(run, 3);
    assert(seq![from_a.read].drop_first() =~= Seq::<Read>::empty());
    assert(seq![from_b.read].drop_first() =~= Seq::<Read>::empty());
    assert(run(Phase::Reading, seq![from_a.read]).1 =~= seq![
        step(Phase::Reading, from_a.read).1,
    ]);
    assert(run(Phase::Reading, seq![from_b.read]).1 =~= seq![
        step(Phase::Reading, from_b.read).1,
    ]);
}

/// Of two arrivals from two different connections, each connection has read
/// just its own.
proof fn lemma_single_read(arrivals: Seq<Arrival>, id: nat, read: Read, second: bool)
    requires
        arrivals.len() == 2,
        arrivals[0].connection != arrivals[1].connection,
        second ==> arrivals[1] == (Arrival { connection: id, read }),
        !second ==> arrivals[0] == (Arrival { connection: id, read }),
    ensures
        reads_of(arrivals, id) == seq![read],
{
    reveal_with_fuel(reads_of, 3);
    let rest = arrivals.drop_first();
    assert(rest.len() == 1);
    assert(rest[0] == arrivals[1]);
    assert(rest.drop_first().len() == 0);
    assert(reads_of(arrivals, id) =~= seq![read]);
}

} // verus!
