use crate::channel::start_position;
use crate::chat_room::{observed, position_of, ChatRoom, RoomState};
use crate::error::{ChatError, ChatResult};
use crate::message::{ChatMessage, MessageText};
use crate::text::str_eq;
use vstd::prelude::*;

verus! {

/// A room under the name it is registered by.
struct RoomEntry {
    name: String,
    room: ChatRoom,
}

/// The broker: the single authority over which rooms exist and who is in
/// them. Rooms are reached by name only; no room is ever handed out.
///
/// The broker is plain data. A program that shares it among tasks keeps it
/// behind one lock and holds that lock for the length of one call.
pub struct ChatServer {
    rooms: Vec<RoomEntry>,
}

/// Some position in `rooms` that is registered under `name`.
spec fn slot_of(rooms: Seq<RoomEntry>, name: Seq<char>) -> int {
    choose|i: int| 0 <= i < rooms.len() && rooms[i].name@ == name
}

/// Whether some room in `rooms` is registered under `name`.
spec fn listed(rooms: Seq<RoomEntry>, name: Seq<char>) -> bool {
    exists|i: int| 0 <= i < rooms.len() && rooms[i].name@ == name
}

/// Room names are unique and every room's member list is free of repeats.
spec fn table_wf(rooms: Seq<RoomEntry>) -> bool {
    &&& forall|i: int, j: int|
        0 <= i < rooms.len() && 0 <= j < rooms.len() && i != j ==> rooms[i].name@
            != rooms[j].name@
    &&& forall|i: int| 0 <= i < rooms.len() ==> (#[trigger] rooms[i]).room.wf()
}

/// The table as a map from room name to the room's state.
spec fn table_view(rooms: Seq<RoomEntry>) -> Map<Seq<char>, RoomState> {
    Map::new(
        |n: Seq<char>| listed(rooms, n),
        |n: Seq<char>| rooms[slot_of(rooms, n)].room.state(),
    )
}

proof fn lemma_slot(rooms: Seq<RoomEntry>, i: int)
    requires
        table_wf(rooms),
        0 <= i < rooms.len(),
    ensures
        listed(rooms, rooms[i].name@),
        slot_of(rooms, rooms[i].name@) == i,
        table_view(rooms).contains_key(rooms[i].name@),
        table_view(rooms)[rooms[i].name@] == rooms[i].room.state(),
{
    let n = rooms[i].name@;
    let k = slot_of(rooms, n);
    assert(0 <= k < rooms.len() && rooms[k].name@ == n);
}

proof fn lemma_listed(rooms: Seq<RoomEntry>, name: Seq<char>)
    requires
        listed(rooms, name),
    ensures
        0 <= slot_of(rooms, name) < rooms.len(),
        rooms[slot_of(rooms, name)].name@ == name,
        table_view(rooms).contains_key(name),
{
}

proof fn lemma_unlisted(rooms: Seq<RoomEntry>, name: Seq<char>)
    requires
        forall|i: int| 0 <= i < rooms.len() ==> rooms[i].name@ != name,
    ensures
        !listed(rooms, name),
        !table_view(rooms).contains_key(name),
{
}

proof fn lemma_room_changed(before: Seq<RoomEntry>, after: Seq<RoomEntry>, i: int)
    requires
        table_wf(before),
        0 <= i < before.len(),
        after.len() == before.len(),
        forall|j: int| 0 <= j < before.len() && j != i ==> after[j] == before[j],
        after[i].name@ == before[i].name@,
        after[i].room.wf(),
    ensures
        table_wf(after),
        table_view(after) == table_view(before).insert(before[i].name@, after[i].room.state()),
{
    assert forall|a: int| 0 <= a < after.len() implies after[a].name@ == before[a].name@ by {}
    assert forall|a: int| 0 <= a < after.len() implies (#[trigger] after[a]).room.wf() by {
        if a != i {
            assert(before[a].room.wf());
        }
    }
    assert(table_wf(after));
    let target = table_view(before).insert(before[i].name@, after[i].room.state());
    assert forall|n: Seq<char>| table_view(after).contains_key(n) == target.contains_key(n) by {
        if listed(after, n) {
            lemma_listed(after, n);
            lemma_slot(before, slot_of(after, n));
        }
        if listed(before, n) {
            lemma_listed(before, n);
            lemma_slot(after, slot_of(before, n));
        }
        if n == before[i].name@ {
            lemma_slot(after, i);
        }
    }
    assert forall|n: Seq<char>| table_view(after).contains_key(n) implies table_view(after)[n]
        == target[n] by {
        lemma_listed(after, n);
        let k = slot_of(after, n);
        lemma_slot(after, k);
        lemma_slot(before, k);
    }
    assert(table_view(after) =~= target);
}

/// A room that nobody has joined and nothing was said in.
pub open spec fn fresh_room() -> RoomState {
    RoomState { members: Seq::empty(), history: Seq::empty() }
}

/// What `create_room` makes of the rooms: a new room without members, unless
/// the name is taken.
pub open spec fn after_create(rooms: Map<Seq<char>, RoomState>, name: Seq<char>) -> Map<
    Seq<char>,
    RoomState,
> {
    if rooms.contains_key(name) {
        rooms
    } else {
        rooms.insert(name, fresh_room())
    }
}

/// What `remove_room` makes of the rooms: only a room without members goes.
pub open spec fn after_remove(rooms: Map<Seq<char>, RoomState>, name: Seq<char>) -> Map<
    Seq<char>,
    RoomState,
> {
    if rooms.contains_key(name) && rooms[name].members.len() == 0 {
        rooms.remove(name)
    } else {
        rooms
    }
}

/// Whether `join_room` registers a new member: the room exists and the user
/// is not in it yet.
pub open spec fn joins_anew(rooms: Map<Seq<char>, RoomState>, room: Seq<char>, user: Seq<char>) -> bool {
    rooms.contains_key(room) && !rooms[room].members.contains(user)
}

/// What `join_room` makes of the rooms: a new member is listed last.
pub open spec fn after_join(
    rooms: Map<Seq<char>, RoomState>,
    room: Seq<char>,
    user: Seq<char>,
) -> Map<Seq<char>, RoomState> {
    if joins_anew(rooms, room, user) {
        rooms.insert(
            room,
            RoomState { members: rooms[room].members.push(user), history: rooms[room].history },
        )
    } else {
        rooms
    }
}

/// What `leave_room` makes of the rooms: a member is taken off its room's
/// list, the others keep their order.
pub open spec fn after_leave(
    rooms: Map<Seq<char>, RoomState>,
    room: Seq<char>,
    user: Seq<char>,
) -> Map<Seq<char>, RoomState> {
    if rooms.contains_key(room) && rooms[room].members.contains(user) {
        rooms.insert(
            room,
            RoomState {
                members: rooms[room].members.remove(rooms[room].members.index_of(user)),
                history: rooms[room].history,
            },
        )
    } else {
        rooms
    }
}

/// What a message that the channel of `room` takes makes of the rooms: it
/// stands last in the room's history.
pub open spec fn after_send(
    rooms: Map<Seq<char>, RoomState>,
    room: Seq<char>,
    message: MessageText,
) -> Map<Seq<char>, RoomState> {
    if rooms.contains_key(room) {
        rooms.insert(
            room,
            RoomState { members: rooms[room].members, history: rooms[room].history.push(message) },
        )
    } else {
        rooms
    }
}

/// Joining twice is joining once: the second call finds the member listed,
/// changes nothing and registers nobody anew, and the member stands in the
/// room's list at exactly one position.
pub proof fn lemma_join_idempotent(
    rooms: Map<Seq<char>, RoomState>,
    room: Seq<char>,
    user: Seq<char>,
)
    requires
        rooms.contains_key(room),
        rooms[room].members.no_duplicates(),
    ensures
        !joins_anew(after_join(rooms, room, user), room, user),
        after_join(after_join(rooms, room, user), room, user) == after_join(rooms, room, user),
        after_join(rooms, room, user)[room].members.no_duplicates(),
        exists|i: int|
            0 <= i < after_join(rooms, room, user)[room].members.len() && after_join(
                rooms,
                room,
                user,
            )[room].members[i] == user,
        forall|i: int, j: int|
            #![trigger after_join(rooms, room, user)[room].members[i], after_join(rooms, room, user)[room].members[j]]
            0 <= i < after_join(rooms, room, user)[room].members.len() && 0 <= j < after_join(
                rooms,
                room,
                user,
            )[room].members.len() && after_join(rooms, room, user)[room].members[i] == user
                && after_join(rooms, room, user)[room].members[j] == user ==> i == j,
{
    let list = rooms[room].members;
    let joined = after_join(rooms, room, user)[room].members;
    if list.contains(user) {
        assert(joined == list);
    } else {
        assert(joined == list.push(user));
        assert(joined[list.len() as int] == user);
        assert forall|i: int, j: int|
            0 <= i < joined.len() && 0 <= j < joined.len() && i != j implies joined[i]
            != joined[j] by {
            if i < list.len() {
                assert(list.contains(list[i]));
            }
            if j < list.len() {
                assert(list.contains(list[j]));
            }
        }
    }
    assert(joined.contains(user));
}

/// A member who joined twice is handed a later message once: the one handle
/// that the first join returned observes it once, and the second join
/// returned no handle.
pub proof fn lemma_delivered_once(
    rooms: Map<Seq<char>, RoomState>,
    room: Seq<char>,
    user: Seq<char>,
    message: MessageText,
)
    requires
        joins_anew(rooms, room, user),
    ensures
        ({
            let start = rooms[room].history.len() as int;
            let twice = after_join(after_join(rooms, room, user), room, user);
            &&& !joins_anew(after_join(rooms, room, user), room, user)
            &&& twice[room].history == rooms[room].history
            &&& observed(after_send(twice, room, message)[room].history, start) == seq![message]
        }),
{
    let start = rooms[room].history.len() as int;
    let once = after_join(rooms, room, user);
    assert(once[room].members[rooms[room].members.len() as int] == user);
    let twice = after_join(once, room, user);
    assert(observed(after_send(twice, room, message)[room].history, start) =~= seq![message]);
}

/// A room that has members outlasts every attempt to remove it, with its
/// members as they were.
pub proof fn lemma_remove_spares_members(rooms: Map<Seq<char>, RoomState>, name: Seq<char>)
    requires
        rooms.contains_key(name),
        rooms[name].members.len() >= 1,
    ensures
        after_remove(rooms, name) == rooms,
{
}

/// A member who joins after one message and before the next is handed the
/// later message and not the earlier one.
pub proof fn lemma_sees_only_later(
    rooms: Map<Seq<char>, RoomState>,
    room: Seq<char>,
    user: Seq<char>,
    earlier: MessageText,
    later: MessageText,
)
    requires
        rooms.contains_key(room),
    ensures
        ({
            let at_join = after_join(after_send(rooms, room, earlier), room, user);
            let start = at_join[room].history.len() as int;
            let end = after_send(at_join, room, later);
            &&& at_join[room].history.last() == earlier
            &&& start == rooms[room].history.len() + 1
            &&& observed(end[room].history, start) == seq![later]
        }),
{
    let at_join = after_join(after_send(rooms, room, earlier), room, user);
    let start = at_join[room].history.len() as int;
    let end = after_send(at_join, room, later);
    assert(observed(end[room].history, start) =~= seq![later]);
}

/// Every handle that was attached to a room before a message is taken is
/// handed that message, after everything else it is handed: all members see
/// the room's messages in the one order of the room's history.
pub proof fn lemma_fan_out(
    rooms: Map<Seq<char>, RoomState>,
    room: Seq<char>,
    message: MessageText,
    starts: Seq<int>,
)
    requires
        rooms.contains_key(room),
        forall|i: int| 0 <= i < starts.len() ==> 0 <= #[trigger] starts[i] <= rooms[room].history.len(),
    ensures
        forall|i: int|
            0 <= i < starts.len() ==> observed(
                after_send(rooms, room, message)[room].history,
                #[trigger] starts[i],
            ) == observed(rooms[room].history, starts[i]).push(message),
        forall|i: int, j: int|
            0 <= i < starts.len() && 0 <= j < starts.len() && starts[i] <= starts[j] ==> observed(
                rooms[room].history,
                #[trigger] starts[j],
            ) == observed(observed(rooms[room].history, #[trigger] starts[i]), starts[j] - starts[i]),
{
    let before = rooms[room].history;
    let after = after_send(rooms, room, message)[room].history;
    assert forall|i: int| 0 <= i < starts.len() implies observed(after, #[trigger] starts[i])
        == observed(before, starts[i]).push(message) by {
        assert(observed(after, starts[i]) =~= observed(before, starts[i]).push(message));
    }
    assert forall|i: int, j: int|
        0 <= i < starts.len() && 0 <= j < starts.len() && starts[i] <= starts[j] implies observed(
            before,
            #[trigger] starts[j],
        ) == observed(observed(before, #[trigger] starts[i]), starts[j] - starts[i]) by {
        assert(observed(before, starts[j]) =~= observed(
            observed(before, starts[i]),
            starts[j] - starts[i],
        ));
    }
}

/// No operation addressed at a room that does not exist changes anything.
pub proof fn lemma_unknown_room_untouched(
    rooms: Map<Seq<char>, RoomState>,
    room: Seq<char>,
    user: Seq<char>,
    message: MessageText,
)
    requires
        !rooms.contains_key(room),
    ensures
        after_join(rooms, room, user) == rooms,
        after_leave(rooms, room, user) == rooms,
        after_send(rooms, room, message) == rooms,
        after_remove(rooms, room) == rooms,
{
}

/// Once every member has left, the room can be removed.
pub proof fn lemma_drained_room_goes(rooms: Map<Seq<char>, RoomState>, name: Seq<char>)
    requires
        rooms.contains_key(name),
        rooms[name].members.len() == 0,
    ensures
        !after_remove(rooms, name).contains_key(name),
        after_remove(rooms, name) == rooms.remove(name),
{
}

impl ChatServer {
    /// The rooms that exist, each with the list of its members in the order
    /// in which they joined and with the messages its channel has taken.
    pub closed spec fn view(&self) -> Map<Seq<char>, RoomState> {
        table_view(self.rooms@)
    }

    /// Room names are unique and no member is listed twice in a room.
    pub closed spec fn wf(&self) -> bool {
        table_wf(self.rooms@)
    }

    /// The members of `room` as a set.
    pub open spec fn members_of(&self, room: Seq<char>) -> Set<Seq<char>> {
        self@[room].members.to_set()
    }

    /// A valid broker lists every member of a room exactly once.
    pub proof fn lemma_members_listed_once(&self, room: Seq<char>)
        requires
            self.wf(),
            self@.contains_key(room),
        ensures
            self@[room].members.no_duplicates(),
    {
        lemma_listed(self.rooms@, room);
        assert(self.rooms@[slot_of(self.rooms@, room)].room.wf());
        self.rooms@[slot_of(self.rooms@, room)].room.lemma_members_listed_once();
    }

    /// A broker without rooms.
    pub fn new() -> (server: ChatServer)
        ensures
            server.wf(),
            server@ == Map::<Seq<char>, RoomState>::empty(),
    {
        let server = ChatServer { rooms: Vec::new() };
        assert(server@ =~= Map::<Seq<char>, RoomState>::empty());
        server
    }

    /// The position of the room registered under `name`, if there is one.
    fn find_room(&self, name: &str) -> (found: Option<usize>)
        requires
            self.wf(),
        ensures
            found is Some == self@.contains_key(name@),
            found matches Some(i) ==> i < self.rooms.len() && self.rooms[i as int].name@ == name@
                && self@[name@] == self.rooms[i as int].room.state(),
            found is None ==> forall|j: int|
                0 <= j < self.rooms.len() ==> self.rooms[j].name@ != name@,
    {
        let mut i: usize = 0;
        while i < self.rooms.len()
            invariant
                self.wf(),
                i <= self.rooms.len(),
                forall|j: int| 0 <= j < i ==> self.rooms[j].name@ != name@,
            decreases self.rooms.len() - i,
        {
            if str_eq(self.rooms[i].name.as_str(), name) {
                proof {
                    lemma_slot(self.rooms@, i as int);
                }
                return Some(i);
            }
            i += 1;
        }
        proof {
            lemma_unlisted(self.rooms@, name@);
        }
        None
    }

    /// Registers a new, empty room under `name`, unless the name is taken.
    pub fn create_room(&mut self, name: String) -> (r: ChatResult<()>)
        requires
            old(self).wf(),
        ensures
            final(self).wf(),
            final(self)@ == after_create(old(self)@, name@),
            r == if old(self)@.contains_key(name@) {
                Err::<(), ChatError>(ChatError::RoomExists)
            } else {
                Ok::<(), ChatError>(())
            },
    {
        if self.find_room(name.as_str()).is_some() {
            return Err(ChatError::RoomExists);
        }
        let ghost before = self.rooms@;
        let ghost key = name@;
        let room = ChatRoom::new();
        self.rooms.push(RoomEntry { name, room });
        proof {
            let after = self.rooms@;
            assert(after =~= before.push(after[before.len() as int]));
            assert(table_wf(after));
            assert forall|n: Seq<char>|
                table_view(after).contains_key(n) == table_view(before).insert(
                    key,
                    fresh_room(),
                ).contains_key(n) by {
                if listed(before, n) {
                    lemma_listed(before, n);
                    lemma_slot(after, slot_of(before, n));
                }
                if n == key {
                    lemma_slot(after, before.len() as int);
                }
                if listed(after, n) && n != key {
                    lemma_listed(after, n);
                    lemma_slot(before, slot_of(after, n));
                }
            }
            assert forall|n: Seq<char>| table_view(after).contains_key(n) implies table_view(
                after,
            )[n] == table_view(before).insert(key, fresh_room())[n] by {
                lemma_listed(after, n);
                let k = slot_of(after, n);
                if k < before.len() {
                    lemma_slot(before, k);
                } else {
                    lemma_slot(after, before.len() as int);
                }
            }
            assert(table_view(after) =~= table_view(before).insert(key, fresh_room()));
        }
        Ok(())
    }

    /// Removes the room `name` if it has no members. A room with members is
    /// never removed: its members leave first.
    pub fn remove_room(&mut self, name: &str) -> (r: ChatResult<()>)
        requires
            old(self).wf(),
        ensures
            final(self).wf(),
            final(self)@ == after_remove(old(self)@, name@),
            r == if !old(self)@.contains_key(name@) {
                Err::<(), ChatError>(ChatError::RoomNotFound)
            } else if old(self)@[name@].members.len() > 0 {
                Err::<(), ChatError>(ChatError::RoomNotEmpty)
            } else {
                Ok::<(), ChatError>(())
            },
    {
        let i = match self.find_room(name) {
            Some(i) => i,
            None => {
                return Err(ChatError::RoomNotFound);
            },
        };
        if !self.rooms[i].room.is_empty() {
            return Err(ChatError::RoomNotEmpty);
        }
        let ghost before = self.rooms@;
        let _gone = self.rooms.remove(i);
        proof {
            let after = self.rooms@;
            assert(after =~= before.remove(i as int));
            assert(table_wf(after)) by {
                assert forall|a: int, b: int|
                    0 <= a < after.len() && 0 <= b < after.len() && a != b implies after[a].name@
                    != after[b].name@ by {
                    let a0 = if a < i { a } else { a + 1 };
                    let b0 = if b < i { b } else { b + 1 };
                    assert(after[a] == before[a0] && after[b] == before[b0]);
                }
                assert forall|a: int| 0 <= a < after.len() implies (#[trigger] after[a]).room.wf() by {
                    let a0 = if a < i { a } else { a + 1 };
                    assert(after[a] == before[a0]);
                }
            }
            assert forall|n: Seq<char>|
                table_view(after).contains_key(n) == table_view(before).remove(
                    name@,
                ).contains_key(n) by {
                if listed(after, n) {
                    lemma_listed(after, n);
                    let k = slot_of(after, n);
                    let k0 = if k < i { k } else { k + 1 };
                    assert(after[k] == before[k0]);
                    lemma_slot(before, k0);
                }
                if listed(before, n) && n != name@ {
                    lemma_listed(before, n);
                    let k = slot_of(before, n);
                    let k1 = if k < i { k } else { k - 1 };
                    assert(after[k1] == before[k]);
                    lemma_slot(after, k1);
                }
            }
            assert forall|n: Seq<char>| table_view(after).contains_key(n) implies table_view(
                after,
            )[n] == table_view(before).remove(name@)[n] by {
                lemma_listed(after, n);
                let k = slot_of(after, n);
                let k0 = if k < i { k } else { k + 1 };
                assert(after[k] == before[k0]);
                lemma_slot(before, k0);
                lemma_slot(after, k);
            }
            assert(table_view(after) =~= table_view(before).remove(name@));
        }
        Ok(())
    }

    /// Makes `user` a member of `room`.
    ///
    /// On the first join the member is listed and a fresh receive handle on
    /// the room's channel is returned: it is the one handle the member's
    /// delivery loop reads from. Joining again changes nothing and returns
    /// no handle, so a member is never delivered a message twice.
    pub fn join_room(&mut self, room: &str, user: String) -> (r: ChatResult<
        Option<tokio::sync::broadcast::Receiver<ChatMessage>>,
    >)
        requires
            old(self).wf(),
        ensures
            final(self).wf(),
            final(self)@ == after_join(old(self)@, room@, user@),
            !old(self)@.contains_key(room@) ==> r matches Err(ChatError::RoomNotFound),
            old(self)@.contains_key(room@) ==> r is Ok,
            r matches Ok(handle) ==> handle is Some == joins_anew(old(self)@, room@, user@),
            r matches Ok(Some(handle)) ==> start_position(handle) == position_of(
                old(self)@[room@].history.len(),
            ),
    {
        let i = match self.find_room(room) {
            Some(i) => i,
            None => {
                return Err(ChatError::RoomNotFound);
            },
        };
        if self.rooms[i].room.has_user(user.as_str()) {
            return Ok(None);
        }
        let ghost before = self.rooms@;
        self.rooms[i].room.add_user(user);
        proof {
            lemma_room_changed(before, self.rooms@, i as int);
        }
        assert(self@ == after_join(old(self)@, room@, user@));
        let rx = self.rooms[i].room.subscribe();
        Ok(Some(rx))
    }

    /// Takes `user` off the member list of `room`. A user who is no member
    /// leaves the room as it is, which is no error.
    pub fn leave_room(&mut self, room: &str, user: &str) -> (r: ChatResult<()>)
        requires
            old(self).wf(),
        ensures
            final(self).wf(),
            final(self)@ == after_leave(old(self)@, room@, user@),
            r == if old(self)@.contains_key(room@) {
                Ok::<(), ChatError>(())
            } else {
                Err::<(), ChatError>(ChatError::RoomNotFound)
            },
    {
        let i = match self.find_room(room) {
            Some(i) => i,
            None => {
                return Err(ChatError::RoomNotFound);
            },
        };
        let ghost before = self.rooms@;
        self.rooms[i].room.remove_user(user);
        proof {
            lemma_room_changed(before, self.rooms@, i as int);
            if !before[i as int].room.entries().contains(user@) {
                assert(table_view(before).insert(room@, before[i as int].room.state())
                    =~= table_view(before));
            }
        }
        Ok(())
    }

    /// Broadcasts `message` in `room`. Every receive handle attached to the
    /// room at this moment gets a copy, and the message then stands last in
    /// the room's history. A room without listeners takes the call all the
    /// same and keeps its history as it is. Nothing else changes.
    pub fn send_message(&mut self, room: &str, message: ChatMessage) -> (r: ChatResult<()>)
        requires
            old(self).wf(),
        ensures
            final(self).wf(),
            r == if old(self)@.contains_key(room@) {
                Ok::<(), ChatError>(())
            } else {
                Err::<(), ChatError>(ChatError::RoomNotFound)
            },
            final(self)@ == after_send(old(self)@, room@, message@) || final(self)@ == old(self)@,
    {
        match self.find_room(room) {
            Some(i) => {
                let ghost before = self.rooms@;
                let r = self.rooms[i].room.broadcast(message);
                proof {
                    lemma_room_changed(before, self.rooms@, i as int);
                    if self.rooms@[i as int].room.history() == before[i as int].room.history() {
                        assert(table_view(before).insert(room@, before[i as int].room.state())
                            =~= table_view(before));
                    }
                }
                r
            },
            None => Err(ChatError::RoomNotFound),
        }
    }

    /// A list of the room names as they are now. The order is that of
    /// creation.
    pub fn list_rooms(&self) -> (names: Vec<String>)
        requires
            self.wf(),
        ensures
            names@.map_values(|s: String| s@).to_set() == self@.dom(),
            names@.map_values(|s: String| s@).no_duplicates(),
    {
        let mut names: Vec<String> = Vec::new();
        let mut i: usize = 0;
        while i < self.rooms.len()
            invariant
                i <= self.rooms.len(),
                names.len() == i,
                forall|j: int| 0 <= j < i ==> names[j]@ == self.rooms[j].name@,
            decreases self.rooms.len() - i,
        {
            names.push(self.rooms[i].name.clone());
            i += 1;
        }
        proof {
            let listing = names@.map_values(|s: String| s@);
            let rooms = self.rooms@;
            assert forall|a: int, b: int|
                0 <= a < listing.len() && 0 <= b < listing.len() && a != b implies listing[a]
                != listing[b] by {
                assert(listing[a] == rooms[a].name@ && listing[b] == rooms[b].name@);
            }
            assert forall|n: Seq<char>| listing.to_set().contains(n) == self@.dom().contains(
                n,
            ) by {
                if listing.contains(n) {
                    let k = choose|k: int| 0 <= k < listing.len() && listing[k] == n;
                    lemma_slot(rooms, k);
                }
                if listed(rooms, n) {
                    lemma_listed(rooms, n);
                    assert(listing[slot_of(rooms, n)] == n);
                }
            }
            assert(listing.to_set() =~= self@.dom());
        }
        names
    }
}

} // verus!
