//! Value tree assembly: folds the linear event stream of one subset back
//! into the hierarchical tree the descriptor program describes.

use vstd::prelude::*;

use crate::descriptor::Descriptor;
use crate::error::Error;
use crate::value::{events_view, Event, EventV, ExtractedValue};

verus! {

/// A node of a decoded subset: a read element, an inlined sequence, or a
/// replication with its iterations.
#[derive(Debug)]
pub enum Node {
    /// An element and its extracted value.
    Leaf(Descriptor, ExtractedValue),
    /// A sequence descriptor and the nodes of its children.
    SequenceNode(Descriptor, Vec<Node>),
    /// A replication descriptor, its resolved factor, and one node list
    /// per iteration.
    ReplicationNode(Descriptor, u64, Vec<Vec<Node>>),
}

/// One subset's decoded values as a tree: the top-level nodes in program
/// order.
#[derive(Debug)]
pub struct ValueTree {
    pub nodes: Vec<Node>,
}

/// The event stream a node stands for: a tree and its stream carry exactly
/// the same information, operator events aside.
pub open spec fn node_events(n: Node) -> Seq<EventV>
    decreases n,
{
    match n {
        Node::Leaf(d, v) => seq![EventV::Element(d, v.value@, v.associated)],
        Node::SequenceNode(d, kids) => seq![EventV::EnterSequence(d)] + nodes_events(kids@) + seq![
            EventV::LeaveSequence(d),
        ],
        Node::ReplicationNode(d, n_it, iters) => seq![EventV::EnterReplication(d, n_it)]
            + iters_events(iters@) + seq![EventV::LeaveReplication],
    }
}

/// The event stream a node list stands for.
pub open spec fn nodes_events(s: Seq<Node>) -> Seq<EventV>
    decreases s,
{
    if s.len() == 0 {
        Seq::empty()
    } else {
        nodes_events(s.drop_last()) + node_events(s.last())
    }
}

/// The event stream an iteration list stands for: each iteration is framed
/// by its one-based enter and leave events.
pub open spec fn iters_events(s: Seq<Vec<Node>>) -> Seq<EventV>
    decreases s,
{
    if s.len() == 0 {
        Seq::empty()
    } else {
        iters_events(s.drop_last()) + seq![EventV::EnterIteration(s.len() as u64)] + nodes_events(
            s.last()@,
        ) + seq![EventV::LeaveIteration]
    }
}

/// The event stream without its operator events: what a value tree keeps.
pub open spec fn strip_ops(s: Seq<EventV>) -> Seq<EventV>
    decreases s.len(),
{
    if s.len() == 0 {
        Seq::empty()
    } else if s.last() is Operator {
        strip_ops(s.drop_last())
    } else {
        strip_ops(s.drop_last()) + seq![s.last()]
    }
}

/// Stripping distributes over splitting a stream.
pub proof fn lemma_strip_ops_concat(s: Seq<EventV>, b: int)
    requires
        0 <= b <= s.len(),
    ensures
        strip_ops(s) == strip_ops(s.take(b)) + strip_ops(s.skip(b)),
    decreases s.len() - b,
{
    if b == s.len() {
        assert(s.take(b) =~= s);
        assert(s.skip(b) =~= Seq::<EventV>::empty());
        assert(strip_ops(s) =~= strip_ops(s.take(b)) + strip_ops(s.skip(b)));
    } else {
        lemma_strip_ops_concat(s.drop_last(), b);
        assert(s.drop_last().take(b) =~= s.take(b));
        assert(s.drop_last().skip(b) =~= s.skip(b).drop_last());
        if s.last() is Operator {
            assert(strip_ops(s.skip(b)) == strip_ops(s.skip(b).drop_last()));
        } else {
            assert(strip_ops(s.skip(b)) == strip_ops(s.skip(b).drop_last()) + seq![s.last()]);
            assert(strip_ops(s.take(b)) + strip_ops(s.skip(b)) =~= (strip_ops(s.take(b))
                + strip_ops(s.skip(b).drop_last())) + seq![s.last()]);
        }
    }
}

/// The stream of a single event, stripped.
pub proof fn lemma_strip_ops_single(e: EventV)
    ensures
        strip_ops(seq![e]) == (if e is Operator {
            Seq::<EventV>::empty()
        } else {
            seq![e]
        }),
{
    assert(seq![e].drop_last() =~= Seq::<EventV>::empty());
    assert(seq![e].last() == e);
    assert(strip_ops(Seq::<EventV>::empty()) =~= Seq::<EventV>::empty());
    if e is Operator {
        assert(strip_ops(seq![e]) =~= Seq::<EventV>::empty());
    } else {
        assert(strip_ops(seq![e]) =~= seq![e]);
    }
}

/// The larger of an index and a floor.
pub open spec fn idx_floor(j: int, lo: int) -> int {
    if j < lo {
        lo
    } else {
        j
    }
}

/// Where the group that starts at `i` ends, under the grammar the
/// assembler reads: elements and operators stand alone; a sequence frame
/// closes with a leave event carrying its own descriptor; a replication
/// frame holds iterations numbered from one and closes with a leave event;
/// any other leave or iteration event ends the group where it stands.
/// `None` when a frame does not close. Assembly succeeds exactly where
/// this parse does.
pub open spec fn sp_group_end(s: Seq<EventV>, i: int) -> Option<int>
    decreases s.len() - i, 1int,
{
    if i < 0 || i > s.len() {
        None
    } else if i == s.len() {
        Some(i)
    } else {
        match s[i] {
            EventV::Element(_, _, _) => sp_group_end(s, i + 1),
            EventV::Operator(_) => sp_group_end(s, i + 1),
            EventV::EnterSequence(d) => match sp_group_end(s, i + 1) {
                Some(j) => if j < s.len() && s[j] == EventV::LeaveSequence(d) {
                    if idx_floor(j + 1, i + 2) <= s.len() {
                        sp_group_end(s, idx_floor(j + 1, i + 2))
                    } else {
                        None
                    }
                } else {
                    None
                },
                None => None,
            },
            EventV::EnterReplication(_, _) => match sp_iters_end(s, i + 1, 1) {
                Some(j) => if j < s.len() && s[j] is LeaveReplication {
                    if idx_floor(j + 1, i + 2) <= s.len() {
                        sp_group_end(s, idx_floor(j + 1, i + 2))
                    } else {
                        None
                    }
                } else {
                    None
                },
                None => None,
            },
            _ => Some(i),
        }
    }
}

/// Where the iteration list that starts at `i` ends, expecting the next
/// iteration to be numbered `k`: each iteration frame holds a group; an
/// event that is not the expected enter ends the list where it stands.
pub open spec fn sp_iters_end(s: Seq<EventV>, i: int, k: int) -> Option<int>
    decreases s.len() - i, 0int,
{
    if i < 0 || i > s.len() {
        None
    } else if i == s.len() {
        Some(i)
    } else if s[i] == EventV::EnterIteration(k as u64) {
        match sp_group_end(s, i + 1) {
            Some(j) => if j < s.len() && s[j] is LeaveIteration {
                if idx_floor(j + 1, i + 2) <= s.len() {
                    sp_iters_end(s, idx_floor(j + 1, i + 2), k + 1)
                } else {
                    None
                }
            } else {
                None
            },
            None => None,
        }
    } else {
        Some(i)
    }
}

/// A successful group parse never moves backwards nor past the end.
pub proof fn lemma_group_end_bounds(s: Seq<EventV>, i: int)
    ensures
        sp_group_end(s, i) matches Some(j) ==> i <= j <= s.len(),
    decreases s.len() - i, 1int,
{
    if 0 <= i < s.len() {
        match s[i] {
            EventV::Element(_, _, _) => {
                lemma_group_end_bounds(s, i + 1);
            },
            EventV::Operator(_) => {
                lemma_group_end_bounds(s, i + 1);
            },
            EventV::EnterSequence(d) => {
                lemma_group_end_bounds(s, i + 1);
                match sp_group_end(s, i + 1) {
                    Some(j) => {
                        if idx_floor(j + 1, i + 2) <= s.len() {
                            lemma_group_end_bounds(s, idx_floor(j + 1, i + 2));
                        }
                    },
                    None => {},
                }
            },
            EventV::EnterReplication(_, _) => {
                lemma_iters_end_bounds(s, i + 1, 1);
                match sp_iters_end(s, i + 1, 1) {
                    Some(j) => {
                        if idx_floor(j + 1, i + 2) <= s.len() {
                            lemma_group_end_bounds(s, idx_floor(j + 1, i + 2));
                        }
                    },
                    None => {},
                }
            },
            _ => {},
        }
    }
}

/// A successful iteration-list parse never moves backwards nor past the
/// end.
pub proof fn lemma_iters_end_bounds(s: Seq<EventV>, i: int, k: int)
    ensures
        sp_iters_end(s, i, k) matches Some(j) ==> i <= j <= s.len(),
    decreases s.len() - i, 0int,
{
    if 0 <= i < s.len() && s[i] == EventV::EnterIteration(k as u64) {
        lemma_group_end_bounds(s, i + 1);
        match sp_group_end(s, i + 1) {
            Some(j) => {
                if idx_floor(j + 1, i + 2) <= s.len() {
                    lemma_iters_end_bounds(s, idx_floor(j + 1, i + 2), k + 1);
                }
            },
            None => {},
        }
    }
}

/// Shifting the group parse by a prefix: parsing `p + u` from `p.len() + d`
/// is parsing `u` from `d`, every index moved up by the prefix length.
pub proof fn lemma_group_end_shift(p: Seq<EventV>, u: Seq<EventV>, d: int)
    requires
        0 <= d,
    ensures
        sp_group_end(p + u, p.len() + d) == (match sp_group_end(u, d) {
            Some(j) => Some(p.len() + j),
            None => None::<int>,
        }),
    decreases u.len() - d, 1int,
{
    let s = p + u;
    let b = p.len() as int;
    if d > u.len() {
    } else if d == u.len() {
    } else {
        assert(s[b + d] == u[d]);
        match u[d] {
            EventV::Element(_, _, _) => {
                lemma_group_end_shift(p, u, d + 1);
            },
            EventV::Operator(_) => {
                lemma_group_end_shift(p, u, d + 1);
            },
            EventV::EnterSequence(dd) => {
                lemma_group_end_shift(p, u, d + 1);
                match sp_group_end(u, d + 1) {
                    Some(j) => {
                        lemma_group_end_bounds(u, d + 1);
                        if j < u.len() {
                            assert(s[b + j] == u[j]);
                        }
                        if j < u.len() && u[j] == EventV::LeaveSequence(dd) {
                            assert(idx_floor(b + j + 1, b + d + 2) == b + idx_floor(j + 1, d + 2));
                            if idx_floor(j + 1, d + 2) <= u.len() {
                                lemma_group_end_shift(p, u, idx_floor(j + 1, d + 2));
                            }
                        }
                    },
                    None => {},
                }
            },
            EventV::EnterReplication(_, _) => {
                lemma_iters_end_shift(p, u, d + 1, 1);
                match sp_iters_end(u, d + 1, 1) {
                    Some(j) => {
                        lemma_iters_end_bounds(u, d + 1, 1);
                        if j < u.len() {
                            assert(s[b + j] == u[j]);
                        }
                        if j < u.len() && u[j] is LeaveReplication {
                            assert(idx_floor(b + j + 1, b + d + 2) == b + idx_floor(j + 1, d + 2));
                            if idx_floor(j + 1, d + 2) <= u.len() {
                                lemma_group_end_shift(p, u, idx_floor(j + 1, d + 2));
                            }
                        }
                    },
                    None => {},
                }
            },
            _ => {},
        }
    }
}

/// Shifting the iteration-list parse by a prefix.
pub proof fn lemma_iters_end_shift(p: Seq<EventV>, u: Seq<EventV>, d: int, k: int)
    requires
        0 <= d,
    ensures
        sp_iters_end(p + u, p.len() + d, k) == (match sp_iters_end(u, d, k) {
            Some(j) => Some(p.len() + j),
            None => None::<int>,
        }),
    decreases u.len() - d, 0int,
{
    let s = p + u;
    let b = p.len() as int;
    if d > u.len() {
    } else if d == u.len() {
    } else {
        assert(s[b + d] == u[d]);
        if u[d] == EventV::EnterIteration(k as u64) {
            lemma_group_end_shift(p, u, d + 1);
            match sp_group_end(u, d + 1) {
                Some(j) => {
                    lemma_group_end_bounds(u, d + 1);
                    if j < u.len() {
                        assert(s[b + j] == u[j]);
                    }
                    if j < u.len() && u[j] is LeaveIteration {
                        assert(idx_floor(b + j + 1, b + d + 2) == b + idx_floor(j + 1, d + 2));
                        if idx_floor(j + 1, d + 2) <= u.len() {
                            lemma_iters_end_shift(p, u, idx_floor(j + 1, d + 2), k + 1);
                        }
                    }
                },
                None => {},
            }
        }
    }
}

/// Assembles the nodes of one group from `events`, starting at `start` and
/// stopping before the first leave event that closes an enclosing frame
/// (or at the end); returns the nodes and the stop index. Succeeds exactly
/// where the group parse does; the expander only emits streams it
/// succeeds on.
#[verifier::rlimit(100)]
fn assemble_nodes(events: &Vec<Event>, start: usize) -> (r: Result<(Vec<Node>, usize), Error>)
    requires
        start <= events@.len(),
    ensures
        r matches Ok((nodes, j)) ==> start <= j <= events@.len() && nodes_events(nodes@)
            == strip_ops(events_view(events@).subrange(start as int, j as int)) && (j
            < events@.len() ==> !(events@[j as int]@ is Element || events@[j as int]@ is Operator
            || events@[j as int]@ is EnterSequence || events@[j as int]@ is EnterReplication)),
        r matches Err(e) ==> e == Error::OperatorMisuse,
        ({
            let evs = events_view(events@);
            match r {
                Ok((nodes, j)) => sp_group_end(evs, start as int) == Some(j as int),
                Err(_) => sp_group_end(evs, start as int) is None,
            }
        }),
    decreases events@.len() - start, 0int,
{
    let ghost evs = events_view(events@);
    let mut nodes: Vec<Node> = Vec::new();
    let mut i: usize = start;
    proof {
        assert(evs.subrange(start as int, start as int) =~= Seq::<EventV>::empty());
        assert(nodes_events(nodes@) =~= strip_ops(evs.subrange(start as int, start as int)));
    }
    while i < events.len()
        invariant
            start <= i <= events@.len(),
            evs == events_view(events@),
            evs.len() == events@.len(),
            nodes_events(nodes@) == strip_ops(evs.subrange(start as int, i as int)),
            sp_group_end(evs, start as int) == sp_group_end(evs, i as int),
        decreases events@.len() - i, 1int, events@.len() - i,
    {
        let ghost pre = nodes@;
        let ghost done = evs.subrange(start as int, i as int);
        proof {
            assert(evs.subrange(start as int, i + 1).drop_last() =~= done);
            assert(evs.subrange(start as int, i + 1).last() == evs[i as int]);
        }
        match &events[i] {
            Event::Element(d, v) => {
                let node = Node::Leaf(*d, v.clone_value());
                nodes.push(node);
                proof {
                    assert(nodes@.drop_last() =~= pre);
                    assert(nodes_events(nodes@) == nodes_events(pre) + node_events(nodes@.last()));
                    assert(node_events(nodes@.last()) =~= seq![evs[i as int]]);
                    assert(strip_ops(evs.subrange(start as int, i + 1)) == strip_ops(done) + seq![
                        evs[i as int],
                    ]);
                    assert(nodes_events(nodes@) =~= strip_ops(evs.subrange(start as int, i + 1)));
                    assert(sp_group_end(evs, i as int) == sp_group_end(evs, i + 1));
                }
                i = i + 1;
            },
            Event::Operator(_) => {
                proof {
                    assert(nodes_events(nodes@) =~= strip_ops(evs.subrange(start as int, i + 1)));
                    assert(sp_group_end(evs, i as int) == sp_group_end(evs, i + 1));
                }
                i = i + 1;
            },
            Event::EnterSequence(d) => {
                let d = *d;
                let (kids, j) = match assemble_nodes(events, i + 1) {
                    Ok(p) => p,
                    Err(e) => {
                        proof {
                            assert(sp_group_end(evs, i as int) is None);
                        }
                        return Err(e);
                    },
                };
                if j >= events.len() {
                    proof {
                        assert(sp_group_end(evs, i as int) is None);
                    }
                    return Err(Error::OperatorMisuse);
                }
                let closes = match &events[j] {
                    Event::LeaveSequence(dd) => *dd == d,
                    _ => false,
                };
                if !closes {
                    proof {
                        assert(evs[j as int] != EventV::LeaveSequence(d));
                        assert(sp_group_end(evs, i as int) is None);
                    }
                    return Err(Error::OperatorMisuse);
                }
                proof {
                    assert(idx_floor(j + 1, i + 2) == j + 1);
                    assert(sp_group_end(evs, i as int) == sp_group_end(evs, j + 1));
                }
                let node = Node::SequenceNode(d, kids);
                let ghost kidsv = node->SequenceNode_1@;
                nodes.push(node);
                proof {
                    assert(nodes@.drop_last() =~= pre);
                    lemma_strip_ops_concat(evs.subrange(start as int, j + 1), i + 1 - start);
                    lemma_strip_ops_concat(evs.subrange(i as int, j + 1), 1);
                    assert(evs.subrange(start as int, j + 1).take(i + 1 - start) =~= evs.subrange(
                        start as int,
                        i + 1,
                    ));
                    assert(evs.subrange(start as int, j + 1).skip(i + 1 - start) =~= evs.subrange(
                        i + 1,
                        j + 1,
                    ));
                    assert(evs.subrange(i + 1, j + 1).drop_last() =~= evs.subrange(
                        i + 1,
                        j as int,
                    ));
                    assert(evs.subrange(start as int, i + 1).drop_last() =~= evs.subrange(
                        start as int,
                        i as int,
                    ));
                    assert(evs.subrange(start as int, i + 1).last() == EventV::EnterSequence(d));
                    assert(strip_ops(evs.subrange(start as int, i + 1)) == strip_ops(done) + seq![
                        EventV::EnterSequence(d),
                    ]);
                    assert(strip_ops(evs.subrange(i + 1, j + 1)) == strip_ops(evs.subrange(
                        i + 1,
                        j as int,
                    )) + seq![EventV::LeaveSequence(d)]);
                    assert(node_events(Node::SequenceNode(d, kids)) == seq![
                        EventV::EnterSequence(d),
                    ] + nodes_events(kidsv) + seq![EventV::LeaveSequence(d)]);
                    assert(nodes_events(nodes@) =~= strip_ops(evs.subrange(start as int, j + 1)));
                }
                i = j + 1;
            },
            Event::EnterReplication(d, n) => {
                let d = *d;
                let n = *n;
                let mut iters: Vec<Vec<Node>> = Vec::new();
                let mut j = i + 1;
                let ghost rep_start = i as int;
                proof {
                    assert(iters_events(iters@) =~= strip_ops(evs.subrange(i + 1, i + 1)));
                    assert(evs.subrange(i + 1, i + 1) =~= Seq::<EventV>::empty());
                }
                let mut scanning = true;
                while scanning
                    invariant
                        i + 1 <= j <= events@.len(),
                        evs == events_view(events@),
                        evs.len() == events@.len(),
                        iters_events(iters@) == strip_ops(evs.subrange(rep_start + 1, j as int)),
                        iters@.len() <= j,
                        rep_start == i as int,
                        start <= i < events@.len(),
                        evs[i as int] == EventV::EnterReplication(d, n),
                        sp_group_end(evs, start as int) == sp_group_end(evs, i as int),
                        sp_iters_end(evs, rep_start + 1, 1) == sp_iters_end(
                            evs,
                            j as int,
                            iters@.len() + 1int,
                        ),
                        !scanning ==> j < events@.len() && evs[j as int]
                            != EventV::EnterIteration((iters@.len() + 1int) as u64),
                    decreases events@.len() - j + (if scanning {
                        1int
                    } else {
                        0int
                    }), 0int, 0int,
                {
                    if j >= events.len() {
                        proof {
                            assert(sp_iters_end(evs, j as int, iters@.len() + 1int) == Some(
                                j as int,
                            ));
                            assert(sp_group_end(evs, i as int) is None);
                        }
                        return Err(Error::OperatorMisuse);
                    }
                    let is_iter = match &events[j] {
                        Event::EnterIteration(k) => *k == (iters.len() as u64) + 1,
                        _ => false,
                    };
                    let ghost cnt = iters@.len() + 1int;
                    proof {
                        if is_iter {
                            assert(evs[j as int] == EventV::EnterIteration(cnt as u64));
                        } else {
                            assert(evs[j as int] != EventV::EnterIteration(cnt as u64));
                        }
                    }
                    if !is_iter {
                        scanning = false;
                        continue ;
                    }
                    let ghost done_it = evs.subrange(rep_start + 1, j as int);
                    let (body, j2) = match assemble_nodes(events, j + 1) {
                        Ok(p) => p,
                        Err(e) => {
                            proof {
                                assert(sp_iters_end(evs, j as int, cnt) is None);
                                assert(sp_group_end(evs, i as int) is None);
                            }
                            return Err(e);
                        },
                    };
                    if j2 >= events.len() {
                        proof {
                            assert(sp_iters_end(evs, j as int, cnt) is None);
                            assert(sp_group_end(evs, i as int) is None);
                        }
                        return Err(Error::OperatorMisuse);
                    }
                    let closes_it = match &events[j2] {
                        Event::LeaveIteration => true,
                        _ => false,
                    };
                    if !closes_it {
                        proof {
                            assert(!(evs[j2 as int] is LeaveIteration));
                            assert(sp_iters_end(evs, j as int, cnt) is None);
                            assert(sp_group_end(evs, i as int) is None);
                        }
                        return Err(Error::OperatorMisuse);
                    }
                    proof {
                        assert(idx_floor(j2 + 1, j + 2) == j2 + 1);
                        assert(sp_iters_end(evs, j as int, cnt) == sp_iters_end(
                            evs,
                            j2 + 1,
                            cnt + 1,
                        ));
                    }
                    let ghost bodyv = body@;
                    let ghost pre_it = iters@;
                    iters.push(body);
                    proof {
                        assert(iters@.drop_last() =~= pre_it);
                        assert(iters@.last()@ == bodyv);
                        lemma_strip_ops_concat(evs.subrange(rep_start + 1, j2 + 1), j - (rep_start
                            + 1));
                        assert(evs.subrange(rep_start + 1, j2 + 1).take(j - (rep_start + 1))
                            =~= done_it);
                        assert(evs.subrange(rep_start + 1, j2 + 1).skip(j - (rep_start + 1))
                            =~= evs.subrange(j as int, j2 + 1));
                        lemma_strip_ops_concat(evs.subrange(j as int, j2 + 1), 1);
                        assert(evs.subrange(j as int, j2 + 1).take(1) =~= seq![evs[j as int]]);
                        assert(evs.subrange(j as int, j2 + 1).skip(1) =~= evs.subrange(
                            j + 1,
                            j2 + 1,
                        ));
                        lemma_strip_ops_single(evs[j as int]);
                        assert(evs.subrange(j + 1, j2 + 1).drop_last() =~= evs.subrange(
                            j + 1,
                            j2 as int,
                        ));
                        assert(evs.subrange(j + 1, j2 + 1).last() == EventV::LeaveIteration);
                        assert(strip_ops(evs.subrange(j + 1, j2 + 1)) == strip_ops(evs.subrange(
                            j + 1,
                            j2 as int,
                        )) + seq![EventV::LeaveIteration]);
                        assert(evs[j as int] == EventV::EnterIteration(iters@.len() as u64));
                        assert(iters_events(iters@) =~= strip_ops(evs.subrange(
                            rep_start + 1,
                            j2 + 1,
                        )));
                    }
                    j = j2 + 1;
                }
                proof {
                    assert(sp_iters_end(evs, j as int, iters@.len() + 1int) == Some(j as int));
                }
                let closes = match &events[j] {
                    Event::LeaveReplication => true,
                    _ => false,
                };
                if !closes {
                    proof {
                        assert(!(evs[j as int] is LeaveReplication));
                        assert(sp_group_end(evs, i as int) is None);
                    }
                    return Err(Error::OperatorMisuse);
                }
                proof {
                    assert(idx_floor(j + 1, i + 2) == j + 1);
                    assert(sp_group_end(evs, i as int) == sp_group_end(evs, j + 1));
                }
                let ghost itersv = iters@;
                let node = Node::ReplicationNode(d, n, iters);
                nodes.push(node);
                proof {
                    assert(nodes@.drop_last() =~= pre);
                    lemma_strip_ops_concat(evs.subrange(start as int, j + 1), i + 1 - start);
                    assert(evs.subrange(start as int, j + 1).take(i + 1 - start) =~= evs.subrange(
                        start as int,
                        i + 1,
                    ));
                    assert(evs.subrange(start as int, j + 1).skip(i + 1 - start) =~= evs.subrange(
                        i + 1,
                        j + 1,
                    ));
                    assert(evs.subrange(start as int, i + 1).drop_last() =~= evs.subrange(
                        start as int,
                        i as int,
                    ));
                    assert(evs.subrange(start as int, i + 1).last() == EventV::EnterReplication(
                        d,
                        n,
                    ));
                    assert(strip_ops(evs.subrange(start as int, i + 1)) == strip_ops(done) + seq![
                        EventV::EnterReplication(d, n),
                    ]);
                    assert(evs.subrange(i + 1, j + 1).drop_last() =~= evs.subrange(
                        i + 1,
                        j as int,
                    ));
                    assert(evs.subrange(i + 1, j + 1).last() == EventV::LeaveReplication);
                    assert(strip_ops(evs.subrange(i + 1, j + 1)) == strip_ops(evs.subrange(
                        i + 1,
                        j as int,
                    )) + seq![EventV::LeaveReplication]);
                    assert(node_events(Node::ReplicationNode(d, n, iters)) == seq![
                        EventV::EnterReplication(d, n),
                    ] + iters_events(itersv) + seq![EventV::LeaveReplication]);
                    assert(nodes_events(nodes@) =~= strip_ops(evs.subrange(start as int, j + 1)));
                }
                i = j + 1;
            },
            _ => {
                proof {
                    assert(sp_group_end(evs, i as int) == Some(i as int));
                }
                return Ok((nodes, i));
            },
        }
    }
    proof {
        assert(sp_group_end(evs, i as int) == Some(i as int));
    }
    Ok((nodes, i))
}

impl ExtractedValue {
    /// An element-for-element copy.
    pub fn clone_value(&self) -> (r: ExtractedValue)
        ensures
            r.value@ == self.value@,
            r.associated == self.associated,
    {
        ExtractedValue {
            value: match &self.value {
                crate::value::Value::Missing => crate::value::Value::Missing,
                crate::value::Value::Integer(i) => crate::value::Value::Integer(*i),
                crate::value::Value::Numeric(m, s) => crate::value::Value::Numeric(*m, *s),
                crate::value::Value::Text(t) => crate::value::Value::Text(
                    crate::section4::copy_bytes(t),
                ),
                crate::value::Value::Code(c) => crate::value::Value::Code(*c),
                crate::value::Value::Flag(f) => crate::value::Value::Flag(*f),
            },
            associated: self.associated,
        }
    }
}

/// Folds one subset's event stream into its value tree. The tree and the
/// stream carry the same information: flattening the tree gives back every
/// event but the operator ones. Succeeds exactly when the whole stream
/// parses as one group; the expander only emits such streams.
pub fn assemble_tree(events: &Vec<Event>) -> (r: Result<ValueTree, Error>)
    ensures
        r matches Ok(t) ==> nodes_events(t.nodes@) == strip_ops(events_view(events@)),
        r matches Err(e) ==> e == Error::OperatorMisuse,
        r is Ok <==> sp_group_end(events_view(events@), 0) == Some(events@.len() as int),
{
    match assemble_nodes(events, 0) {
        Ok((nodes, j)) => {
            if j != events.len() {
                return Err(Error::OperatorMisuse);
            }
            proof {
                assert(events_view(events@).subrange(0, events@.len() as int) =~= events_view(
                    events@,
                ));
            }
            Ok(ValueTree { nodes })
        },
        Err(e) => Err(e),
    }
}

} // verus!
