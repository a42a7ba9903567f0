//! The room registry: which members are in which room, and the fan-out of a text
//! to the members of one room.
//!
//! The registry is a plain value. Whoever shares it between connections puts it
//! behind a lock and calls these methods with the lock held; none of them waits.

use crate::channel::{offer, open_channel};
use crate::envelope::{encoded, EnvelopeView, SignalEnvelope};
use tokio::sync::mpsc::{UnboundedReceiver, UnboundedSender};
use vstd::prelude::*;

verus! {

/// One member of a room, as the contracts speak of it: its identifier, the token
/// that its join was given, and every text that was handed to its channel since,
/// oldest first.
pub struct MemberView {
    pub id: Seq<char>,
    pub token: nat,
    pub offered: Seq<Seq<char>>,
}

/// Whether a fan-out that excludes `excluded` reaches the member.
pub open spec fn is_recipient(m: MemberView, excluded: Option<Seq<char>>) -> bool {
    excluded != Some(m.id)
}

/// The member after a fan-out: the text was handed to its channel if the fan-out
/// reaches it.
pub open spec fn offered_to(m: MemberView, excluded: Option<Seq<char>>, text: Seq<char>)
    -> MemberView {
    if is_recipient(m, excluded) {
        MemberView { id: m.id, token: m.token, offered: m.offered.push(text) }
    } else {
        m
    }
}

/// The members of a room after a fan-out.
pub open spec fn fanned_out(
    members: Seq<MemberView>,
    excluded: Option<Seq<char>>,
    text: Seq<char>,
) -> Seq<MemberView> {
    Seq::new(members.len(), |i: int| offered_to(members[i], excluded, text))
}

/// The place of the first member that carries the token, or the length of the
/// sequence if none does.
pub open spec fn position(members: Seq<MemberView>, token: nat) -> int
    decreases members.len(),
{
    if members.len() == 0 {
        0
    } else if members[0].token == token {
        0
    } else {
        1 + position(members.drop_first(), token)
    }
}

/// The members without the first one that carries the token.
pub open spec fn without(members: Seq<MemberView>, token: nat) -> Seq<MemberView> {
    if position(members, token) < members.len() {
        members.remove(position(members, token))
    } else {
        members
    }
}

/// What `position` finds: nothing before it carries the token, and the member
/// at it does.
pub proof fn lemma_position(members: Seq<MemberView>, token: nat)
    ensures
        0 <= position(members, token) <= members.len(),
        forall|j: int| 0 <= j < position(members, token) ==> (#[trigger] members[j]).token != token,
        position(members, token) < members.len() ==> members[position(members, token)].token
            == token,
    decreases members.len(),
{
    if members.len() > 0 && members[0].token != token {
        let rest = members.drop_first();
        lemma_position(rest, token);
        assert forall|j: int| 0 <= j < position(members, token) implies (
        #[trigger] members[j]).token != token by {
            if j > 0 {
                assert(members[j] == rest[j - 1]);
            }
        }
    }
}

/// The optional text that an optional string slice stands for.
pub open spec fn text_of(s: Option<&str>) -> Option<Seq<char>> {
    match s {
        Some(x) => Some(x@),
        None => None,
    }
}

/// The registry as the contracts speak of it: the members of each room, in the
/// order in which they joined, and the number of tokens issued so far.
pub struct RegistryView {
    pub rooms: Map<Seq<char>, Seq<MemberView>>,
    pub issued: nat,
}

impl RegistryView {
    /// The members of a room; none where there is no such room.
    pub open spec fn members(self, room: Seq<char>) -> Seq<MemberView> {
        if self.rooms.contains_key(room) {
            self.rooms[room]
        } else {
            Seq::empty()
        }
    }

    /// No room is empty, and every token is below the count of those issued and
    /// is carried by one member only.
    pub open spec fn valid(self) -> bool {
        &&& forall|k: Seq<char>| #[trigger] self.rooms.contains_key(k) ==> self.rooms[k].len() > 0
        &&& forall|k: Seq<char>, i: int|
            self.rooms.contains_key(k) && 0 <= i < self.rooms[k].len() ==> (
            #[trigger] self.rooms[k][i]).token < self.issued
        &&& forall|k1: Seq<char>, i1: int, k2: Seq<char>, i2: int|
            self.rooms.contains_key(k1) && 0 <= i1 < self.rooms[k1].len()
                && self.rooms.contains_key(k2) && 0 <= i2 < self.rooms[k2].len() && (
            #[trigger] self.rooms[k1][i1]).token == (#[trigger] self.rooms[k2][i2]).token ==> k1
                == k2 && i1 == i2
    }

    /// The registry after a member with this identifier joined the room: it
    /// stands last in the room, carries the next token, and was handed nothing.
    pub open spec fn joined(self, room: Seq<char>, id: Seq<char>) -> RegistryView {
        RegistryView {
            rooms: self.rooms.insert(
                room,
                self.members(room).push(
                    MemberView { id, token: self.issued, offered: Seq::empty() },
                ),
            ),
            issued: self.issued + 1,
        }
    }

    /// The registry after the member with this token left the room. A room that
    /// is left without members is gone.
    pub open spec fn departed(self, room: Seq<char>, token: nat) -> RegistryView {
        let rest = without(self.members(room), token);
        RegistryView {
            rooms: if rest.len() == 0 {
                self.rooms.remove(room)
            } else {
                self.rooms.insert(room, rest)
            },
            issued: self.issued,
        }
    }

    /// The registry after a text was fanned out to a room. Where there is no such
    /// room, nothing changes.
    pub open spec fn delivered(self, room: Seq<char>, excluded: Option<Seq<char>>, text: Seq<char>)
        -> RegistryView {
        if self.rooms.contains_key(room) {
            RegistryView {
                rooms: self.rooms.insert(room, fanned_out(self.rooms[room], excluded, text)),
                issued: self.issued,
            }
        } else {
            self
        }
    }

    /// The registry after an envelope was broadcast to a room: its wire text is
    /// fanned out, if it has one.
    pub open spec fn announced(self, room: Seq<char>, excluded: Option<Seq<char>>, e: EnvelopeView)
        -> RegistryView {
        match encoded(e) {
            Some(text) => self.delivered(room, excluded, text),
            None => self,
        }
    }
}

/// A join keeps the registry valid.
pub proof fn lemma_joined_valid(reg: RegistryView, room: Seq<char>, id: Seq<char>)
    requires
        reg.valid(),
    ensures
        reg.joined(room, id).valid(),
{
    let after = reg.joined(room, id);
    let old_len = reg.members(room).len() as int;
    assert forall|k: Seq<char>, i: int|
        after.rooms.contains_key(k) && 0 <= i < after.rooms[k].len() implies ((
    #[trigger] after.rooms[k][i]).token < after.issued && (k != room || i != old_len
        ==> reg.rooms.contains_key(k) && i < reg.rooms[k].len() && after.rooms[k][i]
        == reg.rooms[k][i])) by {
        if k == room && i < old_len {
            assert(after.rooms[k][i] == reg.rooms[k][i]);
        }
    }
    assert forall|k1: Seq<char>, i1: int, k2: Seq<char>, i2: int|
        after.rooms.contains_key(k1) && 0 <= i1 < after.rooms[k1].len()
            && after.rooms.contains_key(k2) && 0 <= i2 < after.rooms[k2].len() && (
        #[trigger] after.rooms[k1][i1]).token == (#[trigger] after.rooms[k2][i2]).token implies k1
            == k2 && i1 == i2 by {
        let new1 = k1 == room && i1 == old_len;
        let new2 = k2 == room && i2 == old_len;
        if !new1 {
            assert(reg.rooms[k1][i1].token < reg.issued);
        }
        if !new2 {
            assert(reg.rooms[k2][i2].token < reg.issued);
        }
    }
}

/// A departure keeps the registry valid.
pub proof fn lemma_departed_valid(reg: RegistryView, room: Seq<char>, token: nat)
    requires
        reg.valid(),
    ensures
        reg.departed(room, token).valid(),
{
    let after = reg.departed(room, token);
    let before = reg.members(room);
    let p = position(before, token);
    lemma_position(before, token);
    assert forall|k: Seq<char>, i: int|
        after.rooms.contains_key(k) && 0 <= i < after.rooms[k].len() implies ({
        let j = if k == room && i >= p {
            i + 1
        } else {
            i
        };
        &&& reg.rooms.contains_key(k)
        &&& 0 <= j < reg.rooms[k].len()
        &&& (#[trigger] after.rooms[k][i]) == reg.rooms[k][j]
    }) by {}
    assert forall|k: Seq<char>, i: int|
        after.rooms.contains_key(k) && 0 <= i < after.rooms[k].len() implies (
    #[trigger] after.rooms[k][i]).token < after.issued by {
        let j = if k == room && i >= p {
            i + 1
        } else {
            i
        };
        assert(reg.rooms[k][j].token < reg.issued);
    }
    assert forall|k1: Seq<char>, i1: int, k2: Seq<char>, i2: int|
        after.rooms.contains_key(k1) && 0 <= i1 < after.rooms[k1].len()
            && after.rooms.contains_key(k2) && 0 <= i2 < after.rooms[k2].len() && (
        #[trigger] after.rooms[k1][i1]).token == (#[trigger] after.rooms[k2][i2]).token implies k1
            == k2 && i1 == i2 by {
        let j1 = if k1 == room && i1 >= p {
            i1 + 1
        } else {
            i1
        };
        let j2 = if k2 == room && i2 >= p {
            i2 + 1
        } else {
            i2
        };
        assert(reg.rooms[k1][j1].token == reg.rooms[k2][j2].token);
    }
}

/// A fan-out keeps the registry valid.
pub proof fn lemma_delivered_valid(
    reg: RegistryView,
    room: Seq<char>,
    excluded: Option<Seq<char>>,
    text: Seq<char>,
)
    requires
        reg.valid(),
    ensures
        reg.delivered(room, excluded, text).valid(),
{
    let after = reg.delivered(room, excluded, text);
    assert forall|k: Seq<char>, i: int|
        after.rooms.contains_key(k) && 0 <= i < after.rooms[k].len() implies reg.rooms.contains_key(
        k,
    ) && i < reg.rooms[k].len() && (#[trigger] after.rooms[k][i]).token
        == reg.rooms[k][i].token by {}
    assert forall|k1: Seq<char>, i1: int, k2: Seq<char>, i2: int|
        after.rooms.contains_key(k1) && 0 <= i1 < after.rooms[k1].len()
            && after.rooms.contains_key(k2) && 0 <= i2 < after.rooms[k2].len() && (
        #[trigger] after.rooms[k1][i1]).token == (#[trigger] after.rooms[k2][i2]).token implies k1
            == k2 && i1 == i2 by {
        assert(reg.rooms[k1][i1].token == reg.rooms[k2][i2].token);
    }
}

/// A member: its identifier, its token, the sending end of its channel, and the
/// record of what was handed to that channel.
struct Member {
    id: String,
    token: u64,
    outbox: UnboundedSender<String>,
    offered: Ghost<Seq<Seq<char>>>,
}

impl View for Member {
    type V = MemberView;

    closed spec fn view(&self) -> MemberView {
        MemberView { id: self.id@, token: self.token as nat, offered: self.offered@ }
    }
}

impl Member {
    /// Hands the text to the member's channel unless the member is excluded.
    /// Whatever the channel answers, the fan-out goes on.
    fn serve(&mut self, excluded: &Option<String>, text: &str)
        ensures
            final(self)@ == offered_to(
                old(self)@,
                match excluded {
                    Some(x) => Some(x@),
                    None => None,
                },
                text@,
            ),
    {
        let reached = match excluded {
            Some(x) => self.id != *x,
            None => true,
        };
        if reached {
            let _ = offer(&self.outbox, text.to_owned());
            self.offered = Ghost(self.offered@.push(text@));
        }
    }
}

/// A room: its key and its members, in the order in which they joined.
struct Room {
    key: String,
    members: Vec<Member>,
}

impl Room {
    /// The members as the contracts speak of them.
    spec fn members_view(&self) -> Seq<MemberView> {
        Seq::new(self.members@.len(), |i: int| self.members@[i]@)
    }

    /// Serves each member in turn.
    fn fan_out(&mut self, excluded: &Option<String>, text: &str)
        ensures
            final(self).key == old(self).key,
            final(self).members_view() == fanned_out(
                old(self).members_view(),
                match excluded {
                    Some(x) => Some(x@),
                    None => None,
                },
                text@,
            ),
    {
        let ghost before = self.members_view();
        let ghost ex: Option<Seq<char>> = match excluded {
            Some(x) => Some(x@),
            None => None,
        };
        let mut i: usize = 0;
        while i < self.members.len()
            invariant
                i <= self.members.len(),
                self.key == old(self).key,
                self.members_view().len() == before.len(),
                ex == (match excluded {
                    Some(x) => Some(x@),
                    None => None,
                }),
                forall|j: int|
                    0 <= j < i ==> self.members_view()[j] == offered_to(before[j], ex, text@),
                forall|j: int| i <= j < before.len() ==> self.members_view()[j] == before[j],
            decreases self.members.len() - i,
        {
            let ghost prior = self.members@;
            let ghost prior_view = self.members_view();
            self.members[i].serve(excluded, text);
            assert(self.members@ == prior.update(i as int, self.members@[i as int]));
            assert forall|j: int| 0 <= j < before.len() implies self.members_view()[j] == (if j
                == i {
                offered_to(before[j], ex, text@)
            } else {
                prior_view[j]
            }) by {
                if j == i {
                    assert(prior_view[j] == before[j]);
                    assert(prior[j]@ == before[j]);
                } else {
                    assert(self.members@[j] == prior[j]);
                }
            }
            i = i + 1;
        }
    }

    /// The place of the member with the token, if there is one.
    fn find_member(&self, token: u64) -> (found: Option<usize>)
        ensures
            match found {
                Some(i) => i == position(self.members_view(), token as nat) && i
                    < self.members@.len(),
                None => position(self.members_view(), token as nat) == self.members@.len(),
            },
    {
        proof {
            lemma_position(self.members_view(), token as nat);
        }
        let mut i: usize = 0;
        while i < self.members.len()
            invariant
                i <= self.members.len(),
                forall|j: int| 0 <= j < i ==> (#[trigger] self.members_view()[j]).token != token,
            decreases self.members.len() - i,
        {
            if self.members[i].token == token {
                proof {
                    lemma_position(self.members_view(), token as nat);
                    assert(self.members_view()[i as int].token == token);
                }
                return Some(i);
            }
            assert(self.members_view()[i as int].token != token);
            i = i + 1;
        }
        None
    }
}

/// Whether some room has the key.
spec fn holds(rooms: Seq<Room>, key: Seq<char>) -> bool {
    exists|r: int| 0 <= r < rooms.len() && (#[trigger] rooms[r]).key@ == key
}

/// The place of a room with the key.
spec fn slot(rooms: Seq<Room>, key: Seq<char>) -> int {
    choose|r: int| 0 <= r < rooms.len() && (#[trigger] rooms[r]).key@ == key
}

/// The rooms as a map from key to members.
spec fn rooms_map(rooms: Seq<Room>) -> Map<Seq<char>, Seq<MemberView>> {
    Map::new(|k: Seq<char>| holds(rooms, k), |k: Seq<char>| rooms[slot(rooms, k)].members_view())
}

/// No two rooms have the same key.
spec fn distinct_keys(rooms: Seq<Room>) -> bool {
    forall|r1: int, r2: int|
        0 <= r1 < rooms.len() && 0 <= r2 < rooms.len() && r1 != r2 ==> (#[trigger] rooms[r1]).key@
            != (#[trigger] rooms[r2]).key@
}

/// Among rooms with distinct keys, a room is found under its key, at its place.
proof fn lemma_slot(rooms: Seq<Room>, r: int)
    requires
        distinct_keys(rooms),
        0 <= r < rooms.len(),
    ensures
        holds(rooms, rooms[r].key@),
        slot(rooms, rooms[r].key@) == r,
        rooms_map(rooms).contains_key(rooms[r].key@),
        rooms_map(rooms)[rooms[r].key@] == rooms[r].members_view(),
{
    let key = rooms[r].key@;
    assert(holds(rooms, key));
    let s = slot(rooms, key);
    assert(0 <= s < rooms.len() && rooms[s].key@ == key);
}

/// A key that some room has leads to a room with that key.
proof fn lemma_held(rooms: Seq<Room>, key: Seq<char>)
    requires
        holds(rooms, key),
    ensures
        0 <= slot(rooms, key) < rooms.len(),
        rooms[slot(rooms, key)].key@ == key,
{
}

/// Changing the members of one room changes the map at that room's key only.
proof fn lemma_map_after_update(before: Seq<Room>, after: Seq<Room>, r: int)
    requires
        distinct_keys(before),
        0 <= r < before.len(),
        after == before.update(r, after[r]),
        after[r].key@ == before[r].key@,
    ensures
        distinct_keys(after),
        rooms_map(after) == rooms_map(before).insert(before[r].key@, after[r].members_view()),
{
    assert forall|q: int| 0 <= q < before.len() implies (#[trigger] before[q]).key@
        == after[q].key@ by {}
    lemma_same_keys(before, after);
    let goal = rooms_map(before).insert(before[r].key@, after[r].members_view());
    lemma_slot(before, r);
    assert forall|k: Seq<char>| #[trigger] holds(after, k) implies rooms_map(after)[k]
        == goal[k] by {
        lemma_held(after, k);
        let q = slot(after, k);
        lemma_slot(before, q);
        lemma_slot(after, q);
    }
    assert(rooms_map(after) =~= goal);
}

/// Appending a room under a new key adds that key to the map.
proof fn lemma_map_after_push(before: Seq<Room>, room: Room)
    requires
        distinct_keys(before),
        !holds(before, room.key@),
    ensures
        distinct_keys(before.push(room)),
        rooms_map(before.push(room)) == rooms_map(before).insert(room.key@, room.members_view()),
{
    let after = before.push(room);
    let goal = rooms_map(before).insert(room.key@, room.members_view());
    assert forall|r1: int, r2: int|
        0 <= r1 < after.len() && 0 <= r2 < after.len() && r1 != r2 implies (
    #[trigger] after[r1]).key@ != (#[trigger] after[r2]).key@ by {
        if r1 < before.len() {
            assert(before[r1].key@ == after[r1].key@);
        }
        if r2 < before.len() {
            assert(before[r2].key@ == after[r2].key@);
        }
    }
    assert forall|k: Seq<char>| holds(after, k) == goal.contains_key(k) by {
        if holds(after, k) {
            let q = slot(after, k);
            if q < before.len() {
                assert(before[q].key@ == k);
            }
        }
        if holds(before, k) {
            let q = slot(before, k);
            assert(after[q].key@ == k);
        }
        if k == room.key@ {
            assert(after[before.len() as int].key@ == k);
        }
    }
    assert forall|k: Seq<char>| #[trigger] holds(after, k) implies rooms_map(after)[k]
        == goal[k] by {
        lemma_held(after, k);
        let q = slot(after, k);
        lemma_slot(after, q);
        if q < before.len() {
            assert(before[q] == after[q]);
            lemma_slot(before, q);
        }
    }
    assert(rooms_map(after) =~= goal);
}

/// Removing a room removes its key from the map.
proof fn lemma_map_after_remove(before: Seq<Room>, r: int)
    requires
        distinct_keys(before),
        0 <= r < before.len(),
    ensures
        distinct_keys(before.remove(r)),
        rooms_map(before.remove(r)) == rooms_map(before).remove(before[r].key@),
{
    let after = before.remove(r);
    let goal = rooms_map(before).remove(before[r].key@);
    assert forall|q: int| 0 <= q < after.len() implies (#[trigger] after[q]) == before[if q < r {
        q
    } else {
        q + 1
    }] by {}
    assert forall|r1: int, r2: int|
        0 <= r1 < after.len() && 0 <= r2 < after.len() && r1 != r2 implies (
    #[trigger] after[r1]).key@ != (#[trigger] after[r2]).key@ by {
        let s1 = if r1 < r {
            r1
        } else {
            r1 + 1
        };
        let s2 = if r2 < r {
            r2
        } else {
            r2 + 1
        };
        assert(before[s1].key@ != before[s2].key@);
    }
    assert forall|k: Seq<char>| holds(after, k) == goal.contains_key(k) by {
        if holds(after, k) {
            let q = slot(after, k);
            let p = if q < r {
                q
            } else {
                q + 1
            };
            assert(before[p].key@ == k);
        }
        if holds(before, k) && k != before[r].key@ {
            let p = slot(before, k);
            let q = if p < r {
                p
            } else {
                p - 1
            };
            assert(after[q].key@ == k);
        }
    }
    assert forall|k: Seq<char>| #[trigger] holds(after, k) implies rooms_map(after)[k]
        == goal[k] by {
        lemma_held(after, k);
        let q = slot(after, k);
        lemma_slot(after, q);
        let p = if q < r {
            q
        } else {
            q + 1
        };
        lemma_slot(before, p);
    }
    assert(rooms_map(after) =~= goal);
}

/// Rooms that keep their keys, place by place, keep the set of keys.
proof fn lemma_same_keys(before: Seq<Room>, after: Seq<Room>)
    requires
        before.len() == after.len(),
        forall|r: int| 0 <= r < before.len() ==> (#[trigger] before[r]).key@ == after[r].key@,
    ensures
        distinct_keys(before) ==> distinct_keys(after),
        forall|k: Seq<char>| holds(before, k) == holds(after, k),
{
    assert forall|k: Seq<char>| holds(before, k) == holds(after, k) by {
        if holds(before, k) {
            let r = slot(before, k);
            assert(after[r].key@ == k);
        }
        if holds(after, k) {
            let r = slot(after, k);
            assert(before[r].key@ == k);
        }
    }
    if distinct_keys(before) {
        assert forall|r1: int, r2: int|
            0 <= r1 < after.len() && 0 <= r2 < after.len() && r1 != r2 implies (
        #[trigger] after[r1]).key@ != (#[trigger] after[r2]).key@ by {
            assert(before[r1].key@ == after[r1].key@);
            assert(before[r2].key@ == after[r2].key@);
        }
    }
}

/// The registry that a sequence of rooms and a count of tokens stand for.
spec fn view_of(rooms: Seq<Room>, issued: nat) -> RegistryView {
    RegistryView { rooms: rooms_map(rooms), issued }
}

/// The place of the room with the key, if there is one.
fn find_room(rooms: &Vec<Room>, key: &String) -> (found: Option<usize>)
    ensures
        match found {
            Some(r) => r < rooms@.len() && rooms@[r as int].key@ == key@,
            None => !holds(rooms@, key@),
        },
{
    let mut r: usize = 0;
    while r < rooms.len()
        invariant
            r <= rooms.len(),
            forall|q: int| 0 <= q < r ==> (#[trigger] rooms@[q]).key@ != key@,
        decreases rooms.len() - r,
    {
        if rooms[r].key == *key {
            return Some(r);
        }
        r = r + 1;
    }
    None
}

/// Fans a text out to the room with the key, if there is one.
fn fan_out_in(
    rooms: &mut Vec<Room>,
    key: &String,
    excluded: &Option<String>,
    text: &str,
    Ghost(issued): Ghost<nat>,
)
    requires
        distinct_keys(old(rooms)@),
    ensures
        distinct_keys(final(rooms)@),
        view_of(final(rooms)@, issued) == view_of(old(rooms)@, issued).delivered(
            key@,
            match excluded {
                Some(x) => Some(x@),
                None => None,
            },
            text@,
        ),
{
    match find_room(rooms, key) {
        Some(r) => {
            let ghost before = rooms@;
            rooms[r].fan_out(excluded, text);
            proof {
                lemma_slot(before, r as int);
                lemma_map_after_update(before, rooms@, r as int);
            }
        },
        None => {},
    }
}

/// Puts a new member last into the room with the key, or into a new room.
fn add_member(rooms: &mut Vec<Room>, key: String, member: Member, Ghost(issued): Ghost<nat>)
    requires
        distinct_keys(old(rooms)@),
        member@.token == issued,
        member@.offered == Seq::<Seq<char>>::empty(),
    ensures
        distinct_keys(final(rooms)@),
        view_of(final(rooms)@, issued + 1) == view_of(old(rooms)@, issued).joined(
            key@,
            member@.id,
        ),
{
    let ghost before = rooms@;
    let ghost entry = member@;
    match find_room(rooms, &key) {
        Some(r) => {
            rooms[r].members.push(member);
            proof {
                lemma_slot(before, r as int);
                assert(rooms@[r as int].members_view() =~= before[r as int].members_view().push(
                    entry,
                ));
                lemma_map_after_update(before, rooms@, r as int);
            }
        },
        None => {
            let mut members: Vec<Member> = Vec::new();
            members.push(member);
            let room = Room { key, members };
            proof {
                assert(room.members_view() =~= Seq::<MemberView>::empty().push(entry));
                lemma_map_after_push(before, room);
            }
            rooms.push(room);
        },
    }
}

/// Takes the member with the token out of the room with the key, and the room
/// out of the registry if that leaves it empty.
fn remove_member(rooms: &mut Vec<Room>, key: &String, token: u64, Ghost(issued): Ghost<nat>)
    requires
        distinct_keys(old(rooms)@),
        view_of(old(rooms)@, issued).valid(),
    ensures
        distinct_keys(final(rooms)@),
        view_of(final(rooms)@, issued) == view_of(old(rooms)@, issued).departed(
            key@,
            token as nat,
        ),
{
    let ghost before = rooms@;
    let ghost goal = view_of(before, issued).departed(key@, token as nat);
    match find_room(rooms, key) {
        Some(r) => {
            proof {
                lemma_slot(before, r as int);
            }
            match rooms[r].find_member(token) {
                Some(i) => {
                    if rooms[r].members.len() == 1 {
                        let _ = rooms.remove(r);
                        proof {
                            lemma_map_after_remove(before, r as int);
                        }
                    } else {
                        let _ = rooms[r].members.remove(i);
                        proof {
                            assert(rooms@[r as int].members_view()
                                =~= before[r as int].members_view().remove(i as int));
                            lemma_map_after_update(before, rooms@, r as int);
                        }
                    }
                },
                None => {
                    proof {
                        assert(rooms_map(rooms@) =~= goal.rooms);
                    }
                },
            }
        },
        None => {
            proof {
                assert(rooms_map(rooms@) =~= goal.rooms);
            }
        },
    }
}

/// The handle that a join returns: the token to leave by, and the end of the
/// member's channel on which the texts for its connection arrive.
pub struct MemberHandle {
    pub token: u64,
    pub inbox: UnboundedReceiver<String>,
}

/// The rooms and their members. A registry is always valid: no room is empty,
/// no two rooms share a key, and no two members share a token.
pub struct Registry {
    rooms: Vec<Room>,
    issued: u64,
}

impl View for Registry {
    type V = RegistryView;

    closed spec fn view(&self) -> RegistryView {
        view_of(self.rooms@, self.issued as nat)
    }
}

impl Registry {
    #[verifier::type_invariant]
    spec fn wf(self) -> bool {
        &&& distinct_keys(self.rooms@)
        &&& view_of(self.rooms@, self.issued as nat).valid()
    }

    /// A registry without rooms.
    pub fn new() -> (made: Registry)
        ensures
            made@ == (RegistryView { rooms: Map::empty(), issued: 0 }),
            made@.valid(),
    {
        let made = Registry { rooms: Vec::new(), issued: 0 };
        assert(made@.rooms =~= Map::empty());
        made
    }

    /// Nothing but a proof that the registry is valid, for callers that reason
    /// about it.
    pub fn witness(&self)
        ensures
            self@.valid(),
    {
        proof {
            use_type_invariant(self);
        }
    }

    /// Adds a member to a room, which comes into being with its first member.
    /// The member gets a channel of its own and the next token; the handle holds
    /// the token and the receiving end.
    pub fn join(&mut self, room_key: &str, member_id: &str) -> (handle: MemberHandle)
        requires
            old(self)@.issued < u64::MAX,
        ensures
            final(self)@ == old(self)@.joined(room_key@, member_id@),
            final(self)@.valid(),
            handle.token == old(self)@.issued,
    {
        proof {
            use_type_invariant(&*self);
            lemma_joined_valid(self@, room_key@, member_id@);
        }
        let (outbox, inbox) = open_channel();
        let token = self.issued;
        let member = Member {
            id: member_id.to_owned(),
            token,
            outbox,
            offered: Ghost(Seq::empty()),
        };
        let mut rooms: Vec<Room> = Vec::new();
        std::mem::swap(&mut rooms, &mut self.rooms);
        add_member(&mut rooms, room_key.to_owned(), member, Ghost(token as nat));
        self.issued = token + 1;
        self.rooms = rooms;
        MemberHandle { token, inbox }
    }

    /// Removes the member that joined the room under this token, and the room
    /// with it if no member is left. Where the room or the member is not there,
    /// nothing happens.
    pub fn leave(&mut self, room_key: &str, token: u64)
        ensures
            final(self)@ == old(self)@.departed(room_key@, token as nat),
            final(self)@.valid(),
    {
        proof {
            use_type_invariant(&*self);
            lemma_departed_valid(self@, room_key@, token as nat);
        }
        let key = room_key.to_owned();
        let mut rooms: Vec<Room> = Vec::new();
        std::mem::swap(&mut rooms, &mut self.rooms);
        remove_member(&mut rooms, &key, token, Ghost(self.issued as nat));
        self.rooms = rooms;
    }

    /// Hands a text to the channel of every member of the room whose identifier
    /// is not the excluded one, in the order in which they joined. A channel that
    /// refuses the text costs its own member that text and nobody else anything.
    /// Without such a room nothing happens.
    pub fn deliver(&mut self, room_key: &str, excluded: Option<&str>, text: &str)
        ensures
            final(self)@ == old(self)@.delivered(room_key@, text_of(excluded), text@),
            final(self)@.valid(),
    {
        proof {
            use_type_invariant(&*self);
            lemma_delivered_valid(self@, room_key@, text_of(excluded), text@);
        }
        let key = room_key.to_owned();
        let ex: Option<String> = match excluded {
            Some(x) => Some(x.to_owned()),
            None => None,
        };
        let mut rooms: Vec<Room> = Vec::new();
        std::mem::swap(&mut rooms, &mut self.rooms);
        fan_out_in(&mut rooms, &key, &ex, text, Ghost(self.issued as nat));
        self.rooms = rooms;
    }

    /// Broadcasts an envelope to a room: writes its wire text once and hands it
    /// to every member but those with the excluded identifier. Without such a
    /// room nothing happens. The call fails, and nothing is handed out, only if
    /// the envelope cannot be written.
    pub fn broadcast(&mut self, room_key: &str, excluded: Option<&str>, envelope: &SignalEnvelope)
        -> (sent: Result<(), ()>)
        ensures
            final(self)@ == old(self)@.announced(room_key@, text_of(excluded), envelope@),
            final(self)@.valid(),
            sent is Err <==> old(self)@.rooms.contains_key(room_key@) && encoded(envelope@) is None,
    {
        proof {
            use_type_invariant(&*self);
        }
        if !self.has_room(room_key) {
            return Ok(());
        }
        match envelope.encode() {
            Some(text) => {
                self.deliver(room_key, excluded, text.as_str());
                Ok(())
            },
            None => Err(()),
        }
    }

    /// Whether the room exists, that is, has a member.
    pub fn has_room(&self, room_key: &str) -> (found: bool)
        ensures
            found == self@.rooms.contains_key(room_key@),
    {
        let key = room_key.to_owned();
        find_room(&self.rooms, &key).is_some()
    }

    /// The number of members in the room; zero where there is no such room.
    pub fn member_count(&self, room_key: &str) -> (count: usize)
        ensures
            count == self@.members(room_key@).len(),
    {
        proof {
            use_type_invariant(self);
        }
        let key = room_key.to_owned();
        match find_room(&self.rooms, &key) {
            Some(r) => {
                proof {
                    lemma_slot(self.rooms@, r as int);
                }
                self.rooms[r].members.len()
            },
            None => 0,
        }
    }

    /// The identifiers of the room's members, in the order in which they joined.
    pub fn member_ids(&self, room_key: &str) -> (ids: Vec<String>)
        ensures
            ids@.len() == self@.members(room_key@).len(),
            forall|i: int|
                0 <= i < ids@.len() ==> (#[trigger] ids@[i])@ == self@.members(room_key@)[i].id,
    {
        proof {
            use_type_invariant(self);
        }
        let key = room_key.to_owned();
        let mut ids: Vec<String> = Vec::new();
        match find_room(&self.rooms, &key) {
            Some(r) => {
                proof {
                    lemma_slot(self.rooms@, r as int);
                }
                let room = &self.rooms[r];
                let mut i: usize = 0;
                while i < room.members.len()
                    invariant
                        i <= room.members.len(),
                        ids@.len() == i,
                        forall|j: int|
                            0 <= j < i ==> (#[trigger] ids@[j])@ == room.members_view()[j].id,
                    decreases room.members.len() - i,
                {
                    ids.push(room.members[i].id.clone());
                    i = i + 1;
                }
            },
            None => {},
        }
        ids
    }

    /// Whether a token is left for one more join.
    pub fn can_join(&self) -> (token_left: bool)
        ensures
            token_left == (self@.issued < u64::MAX),
    {
        self.issued < u64::MAX
    }
}

} // verus!
