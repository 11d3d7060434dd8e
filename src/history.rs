//! Properties of a room over a whole sequence of events: ids are fresh,
//! messages fall between their sender's join and leave, a repeated leave is
//! harmless, and rooms do not reach each other's members.
use vstd::prelude::*;

use crate::events::{ClientEventView, ServerEventView};
use crate::room::{
    RoomState, RoomEventView, OutcomeView, step_spec, ids, has_member, position, empty_room, quiet,
};

verus! {

/// The state of a room after the first `k` events of `es`, starting from `v`.
pub open spec fn state_after(v: RoomState, es: Seq<RoomEventView>, k: nat) -> RoomState
    decreases k,
{
    if k == 0 {
        v
    } else {
        step_spec(state_after(v, es, (k - 1) as nat), es[k - 1]).0
    }
}

/// What the room does in answer to event `k` of `es`.
pub open spec fn outcome_at(v: RoomState, es: Seq<RoomEventView>, k: nat) -> OutcomeView {
    step_spec(state_after(v, es, k), es[k as int]).1
}

/// Event `j` admitted member `s` and announced it under the name `u`.
pub open spec fn joined_at(v: RoomState, es: Seq<RoomEventView>, j: nat, s: u64, u: Seq<char>) -> bool {
    &&& outcome_at(v, es, j).assigned == Some(s)
    &&& outcome_at(v, es, j).broadcast == Some(ServerEventView::Joined { user: u })
}

/// Event `i` removed member `s` and announced its departure.
pub open spec fn left_at(v: RoomState, es: Seq<RoomEventView>, i: nat, s: u64) -> bool {
    &&& es[i as int] == (RoomEventView::Leave { member: s })
    &&& outcome_at(v, es, i).broadcast is Some
}

/// Event `k` is a message from member `s` that was broadcast under the name `u`.
pub open spec fn message_at(v: RoomState, es: Seq<RoomEventView>, k: nat, s: u64, u: Seq<char>) -> bool {
    &&& es[k as int] matches RoomEventView::ClientMessage { member, .. } && member == s
    &&& outcome_at(v, es, k).broadcast matches Some(ServerEventView::Message { user, .. }) && user == u
}

/// A transition keeps a well-formed room well-formed, never lowers the
/// counter, and broadcasts to exactly the members it leaves in place.
pub proof fn lemma_step_wf(v: RoomState, e: RoomEventView)
    requires
        v.wf(),
    ensures
        step_spec(v, e).0.wf(),
        step_spec(v, e).0.next_id >= v.next_id,
        step_spec(v, e).1.broadcast is Some ==> step_spec(v, e).1.recipients == ids(step_spec(v, e).0.members),
{
    match e {
        RoomEventView::Leave { member } => {
            if has_member(v.members, member) {
                let p = position(v.members, member);
                let w = step_spec(v, e).0;
                assert forall|a: int, b: int| 0 <= a < b < w.members.len() implies
                    #[trigger] w.members[a].0 < #[trigger] w.members[b].0 by {
                    if a < p {
                        if b >= p {
                            assert(w.members[b] == v.members[b + 1]);
                        }
                    } else {
                        assert(w.members[a] == v.members[a + 1]);
                        assert(w.members[b] == v.members[b + 1]);
                    }
                }
                assert forall|a: int| 0 <= a < w.members.len() implies
                    #[trigger] w.members[a].0 < w.next_id by {
                    if a >= p {
                        assert(w.members[a] == v.members[a + 1]);
                    }
                }
            }
        },
        _ => {},
    }
}

/// Every state reached from a well-formed room is well-formed.
pub proof fn lemma_state_after_wf(v: RoomState, es: Seq<RoomEventView>, k: nat)
    requires
        v.wf(),
        k <= es.len(),
    ensures
        state_after(v, es, k).wf(),
        state_after(v, es, k).next_id >= v.next_id,
    decreases k,
{
    if k > 0 {
        lemma_state_after_wf(v, es, (k - 1) as nat);
        lemma_step_wf(state_after(v, es, (k - 1) as nat), es[k - 1]);
    }
}

proof fn lemma_next_id_grows(v: RoomState, es: Seq<RoomEventView>, a: nat, b: nat)
    requires
        v.wf(),
        a <= b <= es.len(),
    ensures
        state_after(v, es, a).next_id <= state_after(v, es, b).next_id,
    decreases b - a,
{
    if a < b {
        lemma_next_id_grows(v, es, a, (b - 1) as nat);
        lemma_state_after_wf(v, es, (b - 1) as nat);
        lemma_step_wf(state_after(v, es, (b - 1) as nat), es[b - 1]);
    }
}

/// Over any run of a well-formed room, two different events never assign
/// the same member id, and every id they assign is at least the counter the
/// run started from, so it differs from every id issued before the run.
pub proof fn lemma_ids_never_reused(v: RoomState, es: Seq<RoomEventView>, j1: nat, j2: nat)
    requires
        v.wf(),
        j1 < j2 < es.len(),
        outcome_at(v, es, j1).assigned is Some,
        outcome_at(v, es, j2).assigned is Some,
    ensures
        outcome_at(v, es, j1).assigned != outcome_at(v, es, j2).assigned,
        outcome_at(v, es, j1).assigned.unwrap() >= v.next_id,
        outcome_at(v, es, j2).assigned.unwrap() >= v.next_id,
{
    lemma_state_after_wf(v, es, j1);
    lemma_state_after_wf(v, es, j2);
    lemma_next_id_grows(v, es, (j1 + 1) as nat, j2);
}

/// The events that join each of `names` in turn.
pub open spec fn joins(names: Seq<Seq<char>>) -> Seq<RoomEventView> {
    names.map_values(|u: Seq<char>| RoomEventView::Join { user: u })
}

proof fn lemma_joins_prefix(v: RoomState, names: Seq<Seq<char>>, k: nat)
    requires
        v.wf(),
        k <= names.len(),
        v.next_id + names.len() <= u64::MAX,
    ensures
        state_after(v, joins(names), k).next_id == v.next_id + k,
        state_after(v, joins(names), k).members.len() == v.members.len() + k,
        forall|i: int| 0 <= i < v.members.len() ==>
            #[trigger] state_after(v, joins(names), k).members[i] == v.members[i],
        forall|i: int| 0 <= i < k ==>
            #[trigger] state_after(v, joins(names), k).members[v.members.len() + i]
                == ((v.next_id + i) as u64, names[i]),
    decreases k,
{
    if k > 0 {
        lemma_joins_prefix(v, names, (k - 1) as nat);
        let w = state_after(v, joins(names), (k - 1) as nat);
        let w2 = state_after(v, joins(names), k);
        assert(joins(names)[k - 1] == RoomEventView::Join { user: names[k - 1] });
        assert forall|i: int| 0 <= i < k implies
            #[trigger] w2.members[v.members.len() + i] == ((v.next_id + i) as u64, names[i]) by {
            if i < k - 1 {
                assert(w2.members[v.members.len() + i] == w.members[v.members.len() + i]);
            }
        }
    }
}

/// Joining `n` names one after another adds `n` members at the end of the
/// table, in that order, with the ids `next_id`, `next_id + 1`, ...: each id
/// is new, since every id issued before is below `next_id`, and the table
/// keeps distinct ids.
pub proof fn lemma_joins_issue_fresh_ids(v: RoomState, names: Seq<Seq<char>>)
    requires
        v.wf(),
        v.next_id + names.len() <= u64::MAX,
    ensures
        ({
            let w = state_after(v, joins(names), names.len());
            &&& w.wf()
            &&& w.next_id == v.next_id + names.len()
            &&& w.members.len() == v.members.len() + names.len()
            &&& w.members.take(v.members.len() as int) == v.members
            &&& forall|i: int| 0 <= i < names.len() ==>
                #[trigger] w.members[v.members.len() + i] == ((v.next_id + i) as u64, names[i])
            &&& forall|i: int| 0 <= i < names.len() ==>
                #[trigger] w.members[v.members.len() + i].0 >= v.next_id
            &&& ids(w.members).no_duplicates()
        }),
{
    lemma_joins_prefix(v, names, names.len());
    lemma_state_after_wf(v, joins(names), names.len());
    let w = state_after(v, joins(names), names.len());
    assert(w.members.take(v.members.len() as int) =~= v.members);
    assert forall|i: int| 0 <= i < names.len() implies
        #[trigger] w.members[v.members.len() + i].0 >= v.next_id by {
        assert(w.members[v.members.len() + i] == ((v.next_id + i) as u64, names[i]));
    }
    lemma_wf_ids_distinct(w);
}

/// The ids of a well-formed room are pairwise distinct.
pub proof fn lemma_wf_ids_distinct(v: RoomState)
    requires
        v.wf(),
    ensures
        ids(v.members).no_duplicates(),
{
    assert forall|i: int, j: int| 0 <= i < ids(v.members).len() && 0 <= j < ids(v.members).len() && i != j
        implies ids(v.members)[i] != ids(v.members)[j] by {
        if i < j {
            assert(v.members[i].0 < v.members[j].0);
        } else {
            assert(v.members[j].0 < v.members[i].0);
        }
    }
}

/// `n` joins into an empty room leave exactly `n` members with distinct ids.
pub proof fn lemma_joins_into_empty_room(names: Seq<Seq<char>>)
    requires
        names.len() <= u64::MAX,
    ensures
        state_after(empty_room(), joins(names), names.len()).members.len() == names.len(),
        ids(state_after(empty_room(), joins(names), names.len()).members).no_duplicates(),
{
    lemma_joins_issue_fresh_ids(empty_room(), names);
}

/// Some event before event `k` of a run from an empty room admitted member
/// `m.0` and announced it under the name `m.1`.
pub open spec fn announced_before(es: Seq<RoomEventView>, k: nat, m: (u64, Seq<char>)) -> bool {
    exists|j: nat| j < k && joined_at(empty_room(), es, j, m.0, m.1)
}

proof fn lemma_members_were_announced(es: Seq<RoomEventView>, k: nat)
    requires
        k <= es.len(),
    ensures
        forall|idx: int| 0 <= idx < state_after(empty_room(), es, k).members.len() ==>
            announced_before(es, k, #[trigger] state_after(empty_room(), es, k).members[idx]),
    decreases k,
{
    let v = empty_room();
    if k > 0 {
        let k1 = (k - 1) as nat;
        lemma_members_were_announced(es, k1);
        lemma_state_after_wf(v, es, k1);
        let w = state_after(v, es, k1);
        let w2 = state_after(v, es, k);
        assert forall|idx: int| 0 <= idx < w2.members.len() implies
            announced_before(es, k, #[trigger] w2.members[idx]) by {
            match es[k1 as int] {
                RoomEventView::Join { user } => {
                    if w.next_id < u64::MAX && idx == w.members.len() {
                        assert(joined_at(v, es, k1, w2.members[idx].0, w2.members[idx].1));
                    } else {
                        assert(w2.members[idx] == w.members[idx]);
                    }
                },
                RoomEventView::Leave { member } => {
                    if has_member(w.members, member) {
                        let p = position(w.members, member);
                        if idx < p {
                            assert(w2.members[idx] == w.members[idx]);
                        } else {
                            assert(w2.members[idx] == w.members[idx + 1]);
                        }
                    }
                },
                _ => {},
            }
        }
    } else {
        assert(state_after(v, es, 0).members.len() == 0);
    }
}

proof fn lemma_left_stays_gone(es: Seq<RoomEventView>, i: nat, k: nat, s: u64)
    requires
        i < k <= es.len(),
        left_at(empty_room(), es, i, s),
    ensures
        !has_member(state_after(empty_room(), es, k).members, s),
        s < state_after(empty_room(), es, k).next_id,
    decreases k,
{
    let v = empty_room();
    let k1 = (k - 1) as nat;
    lemma_state_after_wf(v, es, k1);
    let w = state_after(v, es, k1);
    let w2 = state_after(v, es, k);
    if k1 == i {
        let p = position(w.members, s);
        assert(has_member(w.members, s));
        if has_member(w2.members, s) {
            let q = choose|q: int| 0 <= q < w2.members.len() && #[trigger] w2.members[q].0 == s;
            if q < p {
                assert(w2.members[q] == w.members[q]);
                assert(w.members[q].0 < w.members[p].0);
            } else {
                assert(w2.members[q] == w.members[q + 1]);
                assert(w.members[p].0 < w.members[q + 1].0);
            }
        }
    } else {
        lemma_left_stays_gone(es, i, k1, s);
        match es[k1 as int] {
            RoomEventView::Join { user } => {
                if has_member(w2.members, s) {
                    let q = choose|q: int| 0 <= q < w2.members.len() && #[trigger] w2.members[q].0 == s;
                    if q < w.members.len() {
                        assert(w2.members[q] == w.members[q]);
                    }
                }
            },
            RoomEventView::Leave { member } => {
                if has_member(w.members, member) && has_member(w2.members, s) {
                    let p = position(w.members, member);
                    let q = choose|q: int| 0 <= q < w2.members.len() && #[trigger] w2.members[q].0 == s;
                    if q < p {
                        assert(w2.members[q] == w.members[q]);
                    } else {
                        assert(w2.members[q] == w.members[q + 1]);
                    }
                }
            },
            _ => {},
        }
    }
}

/// In any run of a room that starts empty, a message broadcast from member
/// `s` under the name `u` comes after the `Joined` that announced `s` under
/// that same name, and no `Left` of `s` comes before it.
pub proof fn lemma_messages_between_join_and_leave(es: Seq<RoomEventView>, k: nat, s: u64, u: Seq<char>)
    requires
        k < es.len(),
        message_at(empty_room(), es, k, s, u),
    ensures
        exists|j: nat| j < k && joined_at(empty_room(), es, j, s, u),
        forall|i: nat| i < k ==> !left_at(empty_room(), es, i, s),
{
    let v = empty_room();
    let w = state_after(v, es, k);
    lemma_state_after_wf(v, es, k);
    match es[k as int] {
        RoomEventView::ClientMessage { message, member } => {
            match message {
                ClientEventView::SendMessage { text } => {
                    assert(has_member(w.members, member));
                    let p = position(w.members, member);
                    lemma_members_were_announced(es, k);
                    assert(w.members[p].0 == s && w.members[p].1 == u);
                    assert forall|i: nat| i < k implies !left_at(v, es, i, s) by {
                        if left_at(v, es, i, s) {
                            lemma_left_stays_gone(es, i, k, s);
                        }
                    }
                },
                _ => {},
            }
        },
        _ => {},
    }
}

/// A leave for a member id that is not in the table changes nothing and
/// broadcasts nothing.
pub proof fn lemma_leave_of_absent_member_is_noop(v: RoomState, member: u64)
    requires
        !has_member(v.members, member),
    ensures
        step_spec(v, RoomEventView::Leave { member }) == (v, quiet()),
{
}

/// Delivering the same leave twice has the effect of delivering it once:
/// the second changes nothing and broadcasts nothing.
pub proof fn lemma_leave_twice_is_leave_once(v: RoomState, member: u64)
    requires
        v.wf(),
    ensures
        ({
            let w = step_spec(v, RoomEventView::Leave { member }).0;
            step_spec(w, RoomEventView::Leave { member }) == (w, quiet())
        }),
{
    let w = step_spec(v, RoomEventView::Leave { member }).0;
    if has_member(v.members, member) && has_member(w.members, member) {
        let p = position(v.members, member);
        let q = choose|q: int| 0 <= q < w.members.len() && #[trigger] w.members[q].0 == member;
        if q < p {
            assert(w.members[q] == v.members[q]);
            assert(v.members[q].0 < v.members[p].0);
        } else {
            assert(w.members[q] == v.members[q + 1]);
            assert(v.members[p].0 < v.members[q + 1].0);
        }
    }
}

/// Where each delivery of a broadcast goes: a room name and a member id.
pub open spec fn deliveries(room: Seq<char>, o: OutcomeView) -> Seq<(Seq<char>, u64)> {
    o.recipients.map_values(|id: u64| (room, id))
}

/// An event handled by room `a` leaves every other room as it was, and each
/// delivery it causes goes to room `a`, to a member of `a` at that point.
pub proof fn lemma_rooms_are_isolated(
    rooms: Map<Seq<char>, RoomState>,
    a: Seq<char>,
    b: Seq<char>,
    e: RoomEventView,
)
    requires
        rooms.contains_key(a),
        rooms[a].wf(),
        a != b,
    ensures
        ({
            let (w, o) = step_spec(rooms[a], e);
            let after = rooms.insert(a, w);
            &&& after.contains_key(b) == rooms.contains_key(b)
            &&& rooms.contains_key(b) ==> after[b] == rooms[b]
            &&& forall|d: int| 0 <= d < deliveries(a, o).len() ==> {
                &&& (#[trigger] deliveries(a, o)[d]).0 == a
                &&& deliveries(a, o)[d].0 != b
                &&& has_member(w.members, deliveries(a, o)[d].1)
            }
        }),
{
    let (w, o) = step_spec(rooms[a], e);
    lemma_step_wf(rooms[a], e);
    assert forall|d: int| 0 <= d < deliveries(a, o).len() implies
        has_member(w.members, (#[trigger] deliveries(a, o)[d]).1) by {
        assert(o.recipients[d] == w.members[d].0);
    }
}

} // verus!
