//! What holds of the relay as a whole, proved from the definitions of the
//! registry and the session.

use crate::envelope::{announcement, decoded, encoded, stamped, EnvelopeView};
use crate::registry::{
    fanned_out, lemma_delivered_valid, lemma_departed_valid, lemma_joined_valid, lemma_position,
    offered_to, position, without, MemberView, RegistryView,
};
use crate::session::{
    closed, entered, relayed, relayed_envelope, reply, step, ActionView, Event, Frame, Phase,
    SessionView,
};
use vstd::prelude::*;

verus! {

/// A fan-out hands the text, once, to every member of the room whose identifier
/// is not the excluded one. It hands nothing to a member with the excluded
/// identifier, nothing to a member of another room, and moves nobody.
pub proof fn lemma_fan_out_reaches_exactly_the_others(
    reg: RegistryView,
    room: Seq<char>,
    excluded: Option<Seq<char>>,
    text: Seq<char>,
)
    ensures
        ({
            let after = reg.delivered(room, excluded, text);
            &&& after.issued == reg.issued
            &&& after.rooms.dom() == reg.rooms.dom()
            &&& forall|k: Seq<char>| k != room ==> #[trigger] after.members(k) == reg.members(k)
            &&& after.members(room).len() == reg.members(room).len()
            &&& forall|i: int|
                0 <= i < reg.members(room).len() ==> {
                    let was = reg.members(room)[i];
                    let is = #[trigger] after.members(room)[i];
                    &&& is.id == was.id
                    &&& is.token == was.token
                    &&& excluded != Some(was.id) ==> is.offered == was.offered.push(text)
                    &&& excluded == Some(was.id) ==> is.offered == was.offered
                }
        }),
{
    let after = reg.delivered(room, excluded, text);
    assert(after.rooms.dom() =~= reg.rooms.dom());
}

/// What a fan-out hands to one member depends on that member alone: whoever
/// else is in the room, and whatever became of the texts handed to them, it is
/// served the same.
pub proof fn lemma_fan_out_serves_each_member_alone(
    room: Seq<MemberView>,
    i: int,
    other_room: Seq<MemberView>,
    j: int,
    excluded: Option<Seq<char>>,
    text: Seq<char>,
)
    requires
        0 <= i < room.len(),
        0 <= j < other_room.len(),
        room[i] == other_room[j],
    ensures
        fanned_out(room, excluded, text)[i] == fanned_out(other_room, excluded, text)[j],
        fanned_out(room, excluded, text)[i] == offered_to(room[i], excluded, text),
{
}

/// A text frame from an active member goes to exactly the other members of its
/// room: each member of the room with another identifier is handed the relayed
/// envelope once, and nobody else is handed anything.
pub proof fn lemma_relay_reaches_exactly_the_others(
    s: SessionView,
    reg: RegistryView,
    frame: String,
    wire: Seq<char>,
)
    requires
        s.phase == Phase::Active,
        decoded(frame@) is Some,
        encoded(stamped(decoded(frame@)->0, s.member_id)) == Some(wire),
    ensures
        step(s, reg, Event::Inbound(Frame::Text(frame))) == (
            s,
            reg.delivered(s.room, Some(s.member_id), wire),
        ),
        reply(s.phase, Event::Inbound(Frame::Text(frame))) == ActionView::Continue,
{
}

/// The sender that a client claims has no effect: the relayed envelope carries
/// the member's own identifier, whatever the claim, the empty text and another
/// member's identifier included. So two envelopes that differ in nothing but the
/// claimed sender are relayed alike.
pub proof fn lemma_relay_overwrites_the_sender(
    s: SessionView,
    reg: RegistryView,
    honest: EnvelopeView,
    forged: EnvelopeView,
)
    requires
        honest.kind == forged.kind,
        honest.data == forged.data,
    ensures
        stamped(forged, s.member_id).sender == s.member_id,
        stamped(forged, s.member_id).kind == forged.kind,
        stamped(forged, s.member_id).data == forged.data,
        stamped(forged, s.member_id) == stamped(honest, s.member_id),
        relayed_envelope(s, reg, forged) == relayed_envelope(s, reg, honest),
{
}

/// The same for frames: two text frames whose envelopes differ in nothing but
/// the claimed sender change the registry alike.
pub proof fn lemma_frames_are_relayed_whatever_sender_they_claim(
    s: SessionView,
    reg: RegistryView,
    honest: Seq<char>,
    forged: Seq<char>,
)
    requires
        decoded(honest) is Some,
        decoded(forged) is Some,
        decoded(honest)->0.kind == decoded(forged)->0.kind,
        decoded(honest)->0.data == decoded(forged)->0.data,
    ensures
        relayed(s, reg, forged) == relayed(s, reg, honest),
{
    lemma_relay_overwrites_the_sender(s, reg, decoded(honest)->0, decoded(forged)->0);
}

/// Texts fanned out to a room one after the other reach each member in that
/// order.
pub proof fn lemma_fan_outs_keep_their_order(
    reg: RegistryView,
    room: Seq<char>,
    excluded: Option<Seq<char>>,
    first: Seq<char>,
    second: Seq<char>,
    i: int,
)
    requires
        0 <= i < reg.members(room).len(),
        excluded != Some(reg.members(room)[i].id),
    ensures
        ({
            let after = reg.delivered(room, excluded, first).delivered(room, excluded, second);
            after.members(room)[i].offered == reg.members(room)[i].offered.push(first).push(second)
        }),
{
}

/// A malformed text frame changes neither the session nor the registry, and
/// does not stop the session: whatever comes next is handled as if the frame
/// had never arrived.
pub proof fn lemma_malformed_frame_changes_nothing(
    s: SessionView,
    reg: RegistryView,
    frame: String,
    next: Event,
)
    requires
        decoded(frame@) is None,
    ensures
        step(s, reg, Event::Inbound(Frame::Text(frame))) == (s, reg),
        s.phase == Phase::Active ==> reply(s.phase, Event::Inbound(Frame::Text(frame)))
            == ActionView::ReportMalformed,
        ({
            let (s1, reg1) = step(s, reg, Event::Inbound(Frame::Text(frame)));
            step(s1, reg1, next) == step(s, reg, next) && reply(s1.phase, next) == reply(
                s.phase,
                next,
            )
        }),
{
}

/// When a member enters a room, every member that was there before and has
/// another identifier is handed the join announcement once; members with the
/// same identifier and members of other rooms are handed nothing. The newcomer
/// stands last in the room and has been handed nothing.
pub proof fn lemma_arrival_is_announced_once(s: SessionView, reg: RegistryView, wire: Seq<char>)
    requires
        reg.valid(),
        encoded(announcement("join"@, s.member_id)) == Some(wire),
    ensures
        ({
            let after = entered(s, reg).1;
            let before = reg.members(s.room);
            &&& entered(s, reg).0.phase == Phase::Active
            &&& entered(s, reg).0.token == reg.issued
            &&& after.members(s.room).len() == before.len() + 1
            &&& after.members(s.room).last() == (MemberView {
                id: s.member_id,
                token: reg.issued,
                offered: Seq::empty(),
            })
            &&& forall|i: int|
                0 <= i < before.len() ==> #[trigger] after.members(s.room)[i] == offered_to(
                    before[i],
                    Some(s.member_id),
                    wire,
                )
            &&& forall|k: Seq<char>| k != s.room ==> #[trigger] after.members(k) == reg.members(k)
        }),
{
    let mid = reg.joined(s.room, s.member_id);
    let after = entered(s, reg).1;
    assert(after == mid.delivered(s.room, Some(s.member_id), wire));
    assert(mid.rooms.contains_key(s.room));
    assert forall|i: int| 0 <= i < reg.members(s.room).len() implies #[trigger] after.members(
        s.room,
    )[i] == offered_to(reg.members(s.room)[i], Some(s.member_id), wire) by {
        assert(mid.rooms[s.room][i] == reg.members(s.room)[i]);
    }
}

/// When an active member closes, it is taken out of its room, and every member
/// that remains there is handed the leave announcement once, whatever its
/// identifier. Members of other rooms are handed nothing.
pub proof fn lemma_departure_is_announced_once(s: SessionView, reg: RegistryView, wire: Seq<char>)
    requires
        reg.valid(),
        s.phase == Phase::Active,
        encoded(announcement("leave"@, s.member_id)) == Some(wire),
    ensures
        ({
            let after = closed(s, reg).1;
            let remaining = without(reg.members(s.room), s.token);
            &&& closed(s, reg).0.phase == Phase::Closed
            &&& after.members(s.room).len() == remaining.len()
            &&& forall|i: int|
                0 <= i < remaining.len() ==> {
                    let is = #[trigger] after.members(s.room)[i];
                    &&& is.id == remaining[i].id
                    &&& is.token == remaining[i].token
                    &&& is.token != s.token
                    &&& is.offered == remaining[i].offered.push(wire)
                }
            &&& forall|k: Seq<char>| k != s.room ==> #[trigger] after.members(k) == reg.members(k)
        }),
{
    let mid = reg.departed(s.room, s.token);
    let after = closed(s, reg).1;
    let remaining = without(reg.members(s.room), s.token);
    assert(after == mid.delivered(s.room, None, wire));
    assert(mid.members(s.room) =~= remaining);
    lemma_without_lacks_the_token(reg, s.room, s.token);
}

/// After a member left, no member of its room carries its token.
pub proof fn lemma_without_lacks_the_token(reg: RegistryView, room: Seq<char>, token: nat)
    requires
        reg.valid(),
    ensures
        forall|i: int|
            0 <= i < without(reg.members(room), token).len() ==> (#[trigger] without(
                reg.members(room),
                token,
            )[i]).token != token,
        position(without(reg.members(room), token), token) == without(
            reg.members(room),
            token,
        ).len(),
{
    let before = reg.members(room);
    let rest = without(before, token);
    let p = position(before, token);
    lemma_position(before, token);
    assert forall|i: int| 0 <= i < rest.len() implies (#[trigger] rest[i]).token != token by {
        if p < before.len() {
            let j = if i < p {
                i
            } else {
                i + 1
            };
            assert(rest[i] == before[j]);
            assert(reg.rooms[room][j].token == reg.rooms[room][p].token ==> j == p);
        } else {
            if before[i].token == token {
                lemma_absent_token(before, token, i);
            }
        }
    }
    lemma_position(rest, token);
}

/// A token that `position` does not find is carried by no member.
pub proof fn lemma_absent_token(members: Seq<MemberView>, token: nat, i: int)
    requires
        position(members, token) == members.len(),
        0 <= i < members.len(),
    ensures
        members[i].token != token,
{
    lemma_position(members, token);
}

/// Once the last member of a room has left, the room is gone, and whoever joins
/// under the same key next is its only member and has been handed nothing.
pub proof fn lemma_emptied_room_starts_afresh(
    reg: RegistryView,
    room: Seq<char>,
    token: nat,
    id: Seq<char>,
)
    requires
        reg.valid(),
        reg.members(room).len() == 1,
        reg.members(room)[0].token == token,
    ensures
        !reg.departed(room, token).rooms.contains_key(room),
        reg.departed(room, token).members(room) == Seq::<MemberView>::empty(),
        reg.departed(room, token).joined(room, id).members(room) == seq![
            MemberView { id, token: reg.issued, offered: Seq::empty() },
        ],
{
    reveal_with_fuel(position, 2);
    let gone = reg.departed(room, token);
    assert(without(reg.members(room), token) =~= Seq::<MemberView>::empty());
    assert(gone.joined(room, id).members(room) =~= seq![
        MemberView { id, token: reg.issued, offered: Seq::empty() },
    ]);
}

/// The same for sessions: when the only member of a room closes and another
/// session then enters under the same key, the newcomer is alone in the room and
/// has been handed nothing, neither an old message nor an announcement.
pub proof fn lemma_session_in_emptied_room_starts_afresh(
    last: SessionView,
    next: SessionView,
    reg: RegistryView,
)
    requires
        reg.valid(),
        last.phase == Phase::Active,
        next.room == last.room,
        reg.members(last.room).len() == 1,
        reg.members(last.room)[0].token == last.token,
    ensures
        ({
            let emptied = closed(last, reg).1;
            let after = entered(next, emptied).1;
            &&& !emptied.rooms.contains_key(last.room)
            &&& after.members(next.room) == seq![
                MemberView { id: next.member_id, token: reg.issued, offered: Seq::empty() },
            ]
        }),
{
    lemma_emptied_room_starts_afresh(reg, last.room, last.token, next.member_id);
    let gone = reg.departed(last.room, last.token);
    let emptied = closed(last, reg).1;
    assert(emptied == gone);
    let mid = emptied.joined(next.room, next.member_id);
    let after = entered(next, emptied).1;
    assert(mid.rooms[next.room] =~= seq![
        MemberView { id: next.member_id, token: reg.issued, offered: Seq::empty() },
    ]);
    match encoded(announcement("join"@, next.member_id)) {
        Some(wire) => {
            assert(after.rooms[next.room] =~= mid.rooms[next.room]);
        },
        None => {},
    }
}

/// Leaving twice is leaving once: the second departure under the same token
/// changes nothing.
pub proof fn lemma_departure_is_idempotent(reg: RegistryView, room: Seq<char>, token: nat)
    requires
        reg.valid(),
    ensures
        reg.departed(room, token).departed(room, token) == reg.departed(room, token),
{
    let once = reg.departed(room, token);
    let twice = once.departed(room, token);
    let rest = without(reg.members(room), token);
    lemma_without_lacks_the_token(reg, room, token);
    if rest.len() == 0 {
        assert(once.members(room) =~= Seq::<MemberView>::empty());
        assert(twice.rooms =~= once.rooms);
    } else {
        assert(once.members(room) == rest);
        assert(twice.rooms =~= once.rooms);
    }
}

/// A departure removes nobody but the member that carries the token: every
/// other member stays in its room, with all that it was handed.
pub proof fn lemma_departure_spares_the_others(
    reg: RegistryView,
    room: Seq<char>,
    token: nat,
    k: Seq<char>,
    i: int,
)
    requires
        reg.valid(),
        reg.rooms.contains_key(k),
        0 <= i < reg.rooms[k].len(),
        reg.rooms[k][i].token != token,
    ensures
        reg.departed(room, token).rooms.contains_key(k),
        reg.departed(room, token).rooms[k].contains(reg.rooms[k][i]),
        reg.rooms[k].len() - 1 <= reg.departed(room, token).rooms[k].len() <= reg.rooms[k].len(),
        k != room ==> reg.departed(room, token).rooms[k] == reg.rooms[k],
{
    let after = reg.departed(room, token);
    if k == room {
        let before = reg.members(room);
        let p = position(before, token);
        lemma_position(before, token);
        if p < before.len() {
            let j = if i < p {
                i
            } else {
                i - 1
            };
            assert(without(before, token)[j] == before[i]);
            assert(after.rooms[k][j] == reg.rooms[k][i]);
        } else {
            assert(after.rooms[k][i] == reg.rooms[k][i]);
        }
    } else {
        assert(after.rooms[k][i] == reg.rooms[k][i]);
    }
}

/// A session closes once: closing a closed session, or handing it any event,
/// changes neither the session nor the registry.
pub proof fn lemma_closed_session_stays_closed(s: SessionView, reg: RegistryView, event: Event)
    ensures
        closed(s, reg).0.phase == Phase::Closed,
        closed(closed(s, reg).0, closed(s, reg).1) == closed(s, reg),
        step(closed(s, reg).0, closed(s, reg).1, event) == closed(s, reg),
        reply(closed(s, reg).0.phase, event) == ActionView::Stop,
{
}

/// Every event that ends an active session takes it through the same closing:
/// out of the room, with the departure announced.
pub proof fn lemma_closing_events_close(s: SessionView, reg: RegistryView)
    requires
        s.phase == Phase::Active,
    ensures
        step(s, reg, Event::Inbound(Frame::Close)) == closed(s, reg),
        step(s, reg, Event::InboundEnded) == closed(s, reg),
        step(s, reg, Event::ReadFailed) == closed(s, reg),
        step(s, reg, Event::OutboundEnded) == closed(s, reg),
        step(s, reg, Event::WriteFailed) == closed(s, reg),
        step(s, reg, Event::Inbound(Frame::Other)) == (s, reg),
        forall|text: String| #[trigger] step(s, reg, Event::Outbound(text)) == (s, reg),
{
}

/// Entering and closing keep the registry valid.
pub proof fn lemma_sessions_keep_the_registry_valid(s: SessionView, reg: RegistryView)
    requires
        reg.valid(),
    ensures
        entered(s, reg).1.valid(),
        closed(s, reg).1.valid(),
        forall|text: Seq<char>| #[trigger] relayed(s, reg, text).valid(),
{
    lemma_joined_valid(reg, s.room, s.member_id);
    lemma_announced_valid(
        reg.joined(s.room, s.member_id),
        s.room,
        Some(s.member_id),
        announcement("join"@, s.member_id),
    );
    lemma_departed_valid(reg, s.room, s.token);
    lemma_announced_valid(
        reg.departed(s.room, s.token),
        s.room,
        None,
        announcement("leave"@, s.member_id),
    );
    assert forall|text: Seq<char>| #[trigger] relayed(s, reg, text).valid() by {
        if decoded(text) is Some {
            lemma_announced_valid(
                reg,
                s.room,
                Some(s.member_id),
                stamped(decoded(text)->0, s.member_id),
            );
        }
    }
}

/// A broadcast keeps the registry valid.
pub proof fn lemma_announced_valid(
    reg: RegistryView,
    room: Seq<char>,
    excluded: Option<Seq<char>>,
    e: EnvelopeView,
)
    requires
        reg.valid(),
    ensures
        reg.announced(room, excluded, e).valid(),
{
    if encoded(e) is Some {
        lemma_delivered_valid(reg, room, excluded, encoded(e)->0);
    }
}

} // verus!
