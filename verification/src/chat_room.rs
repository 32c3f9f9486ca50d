use crate::channel::{
    channel_send, channel_subscribe, next_position, open_channel, position_after, start_position,
    ROOM_CAPACITY,
};
use crate::error::{ChatError, ChatResult};
use crate::message::{ChatMessage, MessageText};
use crate::text::find_name;
use vstd::prelude::*;

verus! {

/// One room: the names of its members and the sending half of the broadcast
/// channel that every member's receive handle is attached to.
///
/// The room itself guards against double membership: a name is listed at
/// most once however often it is added.
pub struct ChatRoom {
    users: Vec<String>,
    tx: tokio::sync::broadcast::Sender<ChatMessage>,
    /// The messages that the channel has taken, oldest first.
    log: Ghost<Seq<MessageText>>,
}

/// What a room is at one moment: who is in it, and what was said in it.
pub struct RoomState {
    /// The member names in the order in which they joined.
    pub members: Seq<Seq<char>>,
    /// The messages that the room's channel has taken, oldest first.
    pub history: Seq<MessageText>,
}

/// The channel position that the message after `count` others takes.
pub open spec fn position_of(count: nat) -> u64 {
    (count % 0x1_0000_0000_0000_0000) as u64
}

/// The history of a room after its channel has answered the send of
/// `message`: the message stands last where the channel queued it for some
/// receive handle, and the history is as before where there was none.
pub open spec fn history_after(
    history: Seq<MessageText>,
    message: MessageText,
    receivers: Option<usize>,
) -> Seq<MessageText> {
    if receivers is Some {
        history.push(message)
    } else {
        history
    }
}

/// What a receive handle that starts at position `start` is handed of
/// `history`, as long as it does not fall behind by more than the channel
/// holds.
pub open spec fn observed(history: Seq<MessageText>, start: int) -> Seq<MessageText>
    recommends
        0 <= start <= history.len(),
{
    history.subrange(start, history.len() as int)
}

impl ChatRoom {
    /// The member names in the order in which they joined.
    pub closed spec fn entries(&self) -> Seq<Seq<char>> {
        self.users@.map_values(|s: String| s@)
    }

    /// The messages that the room's channel has taken, oldest first: those
    /// that were broadcast while a receive handle was attached.
    pub closed spec fn history(&self) -> Seq<MessageText> {
        self.log@
    }

    /// The room's members and history.
    pub open spec fn state(&self) -> RoomState {
        RoomState { members: self.entries(), history: self.history() }
    }

    /// The set of member names.
    pub open spec fn members(&self) -> Set<Seq<char>> {
        self.entries().to_set()
    }

    /// No name is listed twice, and the channel has moved on by one position
    /// for every message of the history.
    pub closed spec fn wf(&self) -> bool {
        &&& self.entries().no_duplicates()
        &&& next_position(self.tx) == position_of(self.log@.len())
    }

    /// In a valid room no name is listed twice.
    pub proof fn lemma_members_listed_once(&self)
        requires
            self.wf(),
        ensures
            self.entries().no_duplicates(),
    {
    }

    /// True iff the room has no members.
    pub fn is_empty(&self) -> (r: bool)
        ensures
            r == (self.entries().len() == 0),
            r == (self.members() == Set::<Seq<char>>::empty()),
    {
        proof {
            if self.entries().len() > 0 {
                assert(self.entries().contains(self.entries()[0]));
                assert(self.members().contains(self.entries()[0]));
            } else {
                assert(self.members() =~= Set::<Seq<char>>::empty());
            }
        }
        self.users.is_empty()
    }

    /// A room without members, on a fresh channel.
    pub fn new() -> (room: ChatRoom)
        ensures
            room.wf(),
            room.entries() == Seq::<Seq<char>>::empty(),
            room.history() == Seq::<MessageText>::empty(),
    {
        let tx = open_channel(ROOM_CAPACITY);
        let room = ChatRoom { users: Vec::new(), tx, log: Ghost(Seq::empty()) };
        assert(room.entries() =~= Seq::<Seq<char>>::empty());
        room
    }

    /// Whether `name` is a member.
    pub fn has_user(&self, name: &str) -> (r: bool)
        ensures
            r == self.members().contains(name@),
    {
        let found = find_name(&self.users, name);
        proof {
            match found {
                Some(i) => {
                    assert(self.entries()[i as int] == name@);
                },
                None => {
                    assert forall|j: int| 0 <= j < self.entries().len() implies self.entries()[j]
                        != name@ by {
                        assert(self.entries()[j] == self.users@[j]@);
                    }
                },
            }
        }
        found.is_some()
    }

    /// Registers `name` as a member. Adding a member again changes nothing.
    pub fn add_user(&mut self, name: String)
        requires
            old(self).wf(),
        ensures
            final(self).wf(),
            final(self).history() == old(self).history(),
            final(self).members() == old(self).members().insert(name@),
            old(self).members().contains(name@) ==> final(self).entries() == old(self).entries(),
            !old(self).members().contains(name@) ==> final(self).entries() == old(self).entries().push(name@),
    {
        if self.has_user(name.as_str()) {
            assert(self.members() =~= self.members().insert(name@));
        } else {
            let ghost before = self.entries();
            self.users.push(name);
            proof {
                assert(self.entries() =~= before.push(name@));
                assert forall|i: int, j: int|
                    0 <= i < self.entries().len() && 0 <= j < self.entries().len() && i
                        != j implies self.entries()[i] != self.entries()[j] by {
                    if i < before.len() && j < before.len() {
                    } else if i < before.len() {
                        assert(before.contains(before[i]));
                    } else {
                        assert(before.contains(before[j]));
                    }
                }
                assert forall|n: Seq<char>|
                    self.entries().to_set().contains(n) == before.to_set().insert(name@).contains(
                        n,
                    ) by {
                    if before.contains(n) {
                        let k = choose|k: int| 0 <= k < before.len() && before[k] == n;
                        assert(self.entries()[k] == n);
                    }
                    if n == name@ {
                        assert(self.entries()[before.len() as int] == n);
                    }
                }
                assert(self.members() =~= before.to_set().insert(name@));
            }
        }
    }

    /// The room right after its channel has answered a send with `receivers`
    /// and before the history is brought up to date: the channel has moved
    /// on by one position if it queued the message, and not at all if it
    /// did not.
    pub closed spec fn answered(&self, receivers: Option<usize>) -> bool {
        &&& self.entries().no_duplicates()
        &&& next_position(self.tx) == if receivers is Some {
            position_after(position_of(self.log@.len()))
        } else {
            position_of(self.log@.len())
        }
    }

    /// Brings the room up to date with the channel's answer to the send of
    /// `message`, and gives the result of the broadcast. A message that was
    /// queued for some receive handle stands last in the history from now
    /// on. A message that found no handle leaves no trace, and is no failure
    /// either.
    fn settle(&mut self, Ghost(message): Ghost<MessageText>, receivers: Option<usize>) -> (r:
        ChatResult<()>)
        requires
            old(self).answered(receivers),
        ensures
            final(self).wf(),
            r == Ok::<(), ChatError>(()),
            final(self).entries() == old(self).entries(),
            final(self).history() == history_after(old(self).history(), message, receivers),
    {
        match receivers {
            Some(_) => {
                self.log = Ghost(self.log@.push(message));
            },
            None => {},
        }
        Ok(())
    }

    /// Hands `message` to the channel, which queues a copy for every receive
    /// handle that is attached at this moment. The message then stands last
    /// in the room's history. A room that nobody listens to swallows the
    /// message: that is no failure, and the history stays as it is.
    ///
    /// Which of the two happens is the channel's answer: it depends on the
    /// receive handles that are held outside the room at this moment.
    pub fn broadcast(&mut self, message: ChatMessage) -> (r: ChatResult<()>)
        requires
            old(self).wf(),
        ensures
            final(self).wf(),
            r == Ok::<(), ChatError>(()),
            final(self).entries() == old(self).entries(),
            final(self).history() == old(self).history().push(message@) || final(self).history()
                == old(self).history(),
    {
        let ghost text = message@;
        let receivers = channel_send(&mut self.tx, message);
        self.settle(Ghost(text), receivers)
    }

    /// Takes `name` off the member list. Removing a stranger changes nothing.
    pub fn remove_user(&mut self, name: &str)
        requires
            old(self).wf(),
        ensures
            final(self).wf(),
            final(self).history() == old(self).history(),
            final(self).members() == old(self).members().remove(name@),
            !old(self).members().contains(name@) ==> final(self).entries() == old(self).entries(),
            old(self).members().contains(name@) ==> final(self).entries() == old(self).entries().remove(old(self).entries().index_of(name@)),
    {
        let found = find_name(&self.users, name);
        let ghost before = self.entries();
        match found {
            Some(i) => {
                assert(before[i as int] == name@);
                assert(before.index_of(name@) == i as int) by {
                    let k = before.index_of(name@);
                    assert(0 <= k < before.len() && before[k] == name@);
                }
                let _gone = self.users.remove(i);
                proof {
                    assert(self.entries() =~= before.remove(i as int));
                    assert forall|n: Seq<char>|
                        self.entries().to_set().contains(n) == before.to_set().remove(
                            name@,
                        ).contains(n) by {
                        if self.entries().contains(n) {
                            let k = choose|k: int|
                                0 <= k < self.entries().len() && self.entries()[k] == n;
                            if k < i {
                                assert(before[k] == n);
                            } else {
                                assert(before[k + 1] == n);
                            }
                        }
                        if before.contains(n) && n != name@ {
                            let k = choose|k: int| 0 <= k < before.len() && before[k] == n;
                            if k < i {
                                assert(self.entries()[k] == n);
                            } else {
                                assert(self.entries()[k - 1] == n);
                            }
                        }
                    }
                    assert(self.members() =~= before.to_set().remove(name@));
                }
            },
            None => {
                proof {
                    assert forall|j: int| 0 <= j < before.len() implies before[j] != name@ by {
                        assert(before[j] == self.users@[j]@);
                    }
                    assert(self.members() =~= before.to_set().remove(name@));
                }
            },
        }
    }

    /// A new receive handle on the room's channel. It starts behind the
    /// room's history: it is handed every message that is broadcast after
    /// this call and none that was broadcast before.
    pub fn subscribe(&self) -> (rx: tokio::sync::broadcast::Receiver<ChatMessage>)
        requires
            self.wf(),
        ensures
            start_position(rx) == position_of(self.history().len()),
    {
        channel_subscribe(&self.tx)
    }
}

} // verus!
