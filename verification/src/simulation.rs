//! The pieces of a random chat simulation: made-up names, the lines its
//! users say, what a roll of the dice asks for, and the record of the rooms
//! and users it has made up so far.

use crate::message::ChatMessage;
use crate::text::{decimal, decimal_text, str_eq, texts};
use rand::seq::SliceRandom;
use rand::Rng;
use vstd::prelude::*;
use vstd::string::*;

verus! {

/// Calls `gen_range` on rand's thread-local generator with the range from
/// `low` up to, not including, `high`. The generator panics on an empty
/// range, which the precondition excludes. The number is random; it lies in
/// the range.
#[verifier::external_body]
fn random_in(low: u32, high: u32) -> (n: u32)
    requires
        low < high,
    ensures
        low <= n < high,
{
    rand::thread_rng().gen_range(low..high)
}

/// Calls `choose` of rand's `SliceRandom` with the thread-local generator.
/// The result is one of the options, picked at random, and none only where
/// there is no option.
#[verifier::external_body]
fn random_choice(options: &Vec<String>) -> (picked: Option<&String>)
    ensures
        match picked {
            Some(text) => exists|i: int| 0 <= i < options.len() && options[i] == *text,
            None => options.len() == 0,
        },
{
    options.choose(&mut rand::thread_rng())
}

/// The name of the room with number `n`.
pub fn room_name(n: u32) -> (name: String)
    ensures
        name@ == "room-"@ + decimal_text(n),
{
    let mut name = "room-".to_owned();
    let digits = decimal(n);
    name.append(digits.as_str());
    name
}

/// The name of the user with number `n`.
pub fn user_name(n: u32) -> (name: String)
    ensures
        name@ == "user-"@ + decimal_text(n),
{
    let mut name = "user-".to_owned();
    let digits = decimal(n);
    name.append(digits.as_str());
    name
}

/// The name of the bot that sits in `room`.
pub fn bot_name(room: &str) -> (name: String)
    ensures
        name@ == room@ + "-bot"@,
{
    let mut name = room.to_owned();
    name.append("-bot");
    name
}

/// A room name with a random number of four digits.
pub fn random_room_name() -> (name: String)
    ensures
        exists|n: u32| 1000 <= n < 9999 && name@ == "room-"@ + decimal_text(n),
{
    room_name(random_in(1000, 9999))
}

/// A user name with a random number of four digits.
pub fn random_user_name() -> (name: String)
    ensures
        exists|n: u32| 1000 <= n < 9999 && name@ == "user-"@ + decimal_text(n),
{
    user_name(random_in(1000, 9999))
}

/// The lines that a user answers a bot with.
pub open spec fn replies() -> Seq<Seq<char>> {
    seq![
        "Hello!"@,
        "Yes, what's up?"@,
        "I heard you calling me."@,
        "Sure, I'm here."@,
        "I'm responding to the bot."@,
        "Random user is present. :-)"@,
    ]
}

/// The lines that a user answers a bot with.
pub fn reply_table() -> (table: Vec<String>)
    ensures
        table@.map_values(|t: String| t@) == replies(),
{
    let mut table: Vec<String> = Vec::new();
    table.push("Hello!".to_owned());
    table.push("Yes, what's up?".to_owned());
    table.push("I heard you calling me.".to_owned());
    table.push("Sure, I'm here.".to_owned());
    table.push("I'm responding to the bot.".to_owned());
    table.push("Random user is present. :-)".to_owned());
    assert(table@.map_values(|t: String| t@) =~= replies());
    table
}

/// One of the replies, picked at random.
pub fn random_message() -> (text: String)
    ensures
        replies().contains(text@),
{
    let table = reply_table();
    match random_choice(&table) {
        Some(picked) => {
            proof {
                let i = choose|i: int| 0 <= i < table.len() && table[i] == *picked;
                assert(table@.map_values(|t: String| t@)[i] == picked@);
            }
            picked.clone()
        },
        None => {
            assert(table@.map_values(|t: String| t@).len() == table.len());
            String::new()
        },
    }
}

/// What the room manager does next.
#[derive(Debug, Clone, Copy, PartialEq, Eq, Structural)]
pub enum RoomMove {
    /// Create a room and put its bot in it.
    Create,
    /// Empty a room and remove it.
    Remove,
}

/// What the user manager does next.
#[derive(Debug, Clone, Copy, PartialEq, Eq, Structural)]
pub enum UserMove {
    /// Let a new user join a room.
    Join,
    /// Let a user leave a room.
    Leave,
    /// Do nothing this round.
    Rest,
}

/// The room manager's move for a roll: four rolls in five create a room.
pub fn room_move(roll: u32) -> (m: RoomMove)
    ensures
        m == if roll <= 3 { RoomMove::Create } else { RoomMove::Remove },
{
    if roll <= 3 {
        RoomMove::Create
    } else {
        RoomMove::Remove
    }
}

/// The user manager's move for a roll: three rolls in four let a user join.
pub fn user_move(roll: u32) -> (m: UserMove)
    ensures
        m == if roll <= 2 { UserMove::Join } else if roll == 3 { UserMove::Leave } else {
            UserMove::Rest
        },
{
    if roll <= 2 {
        UserMove::Join
    } else if roll == 3 {
        UserMove::Leave
    } else {
        UserMove::Rest
    }
}

/// A random move of the room manager.
pub fn random_room_move() -> (m: RoomMove) {
    room_move(random_in(0, 5))
}

/// A random move of the user manager. It never rests.
pub fn random_user_move() -> (m: UserMove)
    ensures
        m != UserMove::Rest,
{
    user_move(random_in(0, 4))
}

/// The message by which the bot of `room` calls `user`: the bot says the
/// user's name.
pub fn bot_call(room: &str, user: &str, timestamp: i64) -> (call: ChatMessage)
    ensures
        call.sender@ == room@ + "-bot"@,
        call.room@ == room@,
        call.content@ == user@,
        call.timestamp == timestamp,
{
    ChatMessage {
        sender: bot_name(room),
        room: room.to_owned(),
        content: user.to_owned(),
        timestamp,
    }
}

/// The message by which `user` answers in `room`.
pub fn user_reply(room: &str, user: &str, content: String, timestamp: i64) -> (reply: ChatMessage)
    ensures
        reply.sender@ == user@,
        reply.room@ == room@,
        reply.content == content,
        reply.timestamp == timestamp,
{
    ChatMessage { sender: user.to_owned(), room: room.to_owned(), content, timestamp }
}

/// A room that the simulation has opened, with the users it has sent into
/// it. The room's bot is not among them.
pub struct Opened {
    name: String,
    users: Vec<String>,
}

/// The simulation's record of the rooms it has opened, oldest first.
pub struct Roster {
    entries: Vec<Opened>,
}

/// The position of the first entry for `room`, or the number of entries
/// where there is none.
pub open spec fn place_of(record: Seq<(Seq<char>, Seq<Seq<char>>)>, room: Seq<char>) -> int
    decreases record.len(),
{
    if record.len() == 0 {
        0
    } else if record[0].0 == room {
        0
    } else {
        1 + place_of(record.drop_first(), room)
    }
}

/// The users recorded for `room`, and none where the room is not recorded.
pub open spec fn users_in(record: Seq<(Seq<char>, Seq<Seq<char>>)>, room: Seq<char>) -> Seq<
    Seq<char>,
> {
    if place_of(record, room) < record.len() {
        record[place_of(record, room)].1
    } else {
        Seq::empty()
    }
}

/// The record with `users` in place of the users of `room`. A room that is
/// not recorded stays so.
pub open spec fn with_users(
    record: Seq<(Seq<char>, Seq<Seq<char>>)>,
    room: Seq<char>,
    users: Seq<Seq<char>>,
) -> Seq<(Seq<char>, Seq<Seq<char>>)> {
    if place_of(record, room) < record.len() {
        record.update(place_of(record, room), (room, users))
    } else {
        record
    }
}

/// The names of the first `n` recorded rooms that have users.
pub open spec fn busy_rooms(record: Seq<(Seq<char>, Seq<Seq<char>>)>, n: int) -> Seq<Seq<char>>
    decreases n,
{
    if n <= 0 {
        Seq::empty()
    } else if record[n - 1].1.len() > 0 {
        busy_rooms(record, n - 1).push(record[n - 1].0)
    } else {
        busy_rooms(record, n - 1)
    }
}

proof fn lemma_place(record: Seq<(Seq<char>, Seq<Seq<char>>)>, room: Seq<char>, i: int)
    requires
        0 <= i <= record.len(),
        forall|j: int| 0 <= j < i ==> record[j].0 != room,
        i == record.len() || record[i].0 == room,
    ensures
        place_of(record, room) == i,
    decreases record.len(),
{
    if record.len() > 0 && i > 0 {
        let rest = record.drop_first();
        assert forall|j: int| 0 <= j < i - 1 implies rest[j].0 != room by {
            assert(rest[j] == record[j + 1]);
        }
        lemma_place(rest, room, i - 1);
    }
}

impl View for Roster {
    type V = Seq<(Seq<char>, Seq<Seq<char>>)>;

    closed spec fn view(&self) -> Seq<(Seq<char>, Seq<Seq<char>>)> {
        self.entries@.map_values(|e: Opened| (e.name@, texts(e.users@)))
    }
}

impl Roster {
    /// A record without rooms.
    pub fn new() -> (roster: Roster)
        ensures
            roster@ == Seq::<(Seq<char>, Seq<Seq<char>>)>::empty(),
    {
        let roster = Roster { entries: Vec::new() };
        assert(roster@ =~= Seq::<(Seq<char>, Seq<Seq<char>>)>::empty());
        roster
    }

    fn find(&self, room: &str) -> (i: usize)
        ensures
            i == place_of(self@, room@),
            i <= self.entries.len(),
            self@.len() == self.entries.len(),
            i < self.entries.len() ==> self.entries[i as int].name@ == room@,
    {
        let mut i: usize = 0;
        while i < self.entries.len()
            invariant
                i <= self.entries.len(),
                forall|j: int| 0 <= j < i ==> self@[j].0 != room@,
            decreases self.entries.len() - i,
        {
            if str_eq(self.entries[i].name.as_str(), room) {
                proof {
                    lemma_place(self@, room@, i as int);
                }
                return i;
            }
            i += 1;
        }
        proof {
            lemma_place(self@, room@, i as int);
        }
        i
    }

    /// Records a newly opened room, without users. A room that is recorded
    /// already starts over without users.
    pub fn track(&mut self, room: String)
        ensures
            final(self)@ == if place_of(old(self)@, room@) < old(self)@.len() {
                with_users(old(self)@, room@, Seq::empty())
            } else {
                old(self)@.push((room@, Seq::empty()))
            },
    {
        let i = self.find(room.as_str());
        let ghost before = self@;
        if i < self.entries.len() {
            self.entries[i].users = Vec::new();
            assert(texts(self.entries[i as int].users@) =~= Seq::<Seq<char>>::empty());
            assert(self@ =~~= before.update(i as int, (room@, Seq::empty())));
        } else {
            self.entries.push(Opened { name: room, users: Vec::new() });
            assert(texts(self.entries[i as int].users@) =~= Seq::<Seq<char>>::empty());
            assert(self@ =~~= before.push((room@, Seq::empty())));
        }
    }

    /// Strikes a room off the record.
    pub fn untrack(&mut self, room: &str)
        ensures
            final(self)@ == if place_of(old(self)@, room@) < old(self)@.len() {
                old(self)@.remove(place_of(old(self)@, room@))
            } else {
                old(self)@
            },
    {
        let i = self.find(room);
        let ghost before = self@;
        if i < self.entries.len() {
            let _gone = self.entries.remove(i);
            assert(self@ =~= before.remove(i as int));
        }
    }

    /// Records that `user` has joined `room`, where the room is recorded.
    pub fn add_user(&mut self, room: &str, user: String)
        ensures
            final(self)@ == with_users(old(self)@, room@, users_in(old(self)@, room@).push(user@)),
    {
        let i = self.find(room);
        let ghost before = self@;
        if i < self.entries.len() {
            self.entries[i].users.push(user);
            assert(texts(self.entries[i as int].users@) =~= before[i as int].1.push(user@));
            assert(self@ =~~= before.update(i as int, (room@, before[i as int].1.push(user@))));
        }
    }

    /// Takes the user at position `idx` off the record of `room` and
    /// returns the name, where there is such a user.
    pub fn take_user(&mut self, room: &str, idx: usize) -> (taken: Option<String>)
        ensures
            match taken {
                Some(user) => idx < users_in(old(self)@, room@).len() && user@ == users_in(
                    old(self)@,
                    room@,
                )[idx as int] && final(self)@ == with_users(
                    old(self)@,
                    room@,
                    users_in(old(self)@, room@).remove(idx as int),
                ),
                None => idx >= users_in(old(self)@, room@).len() && final(self)@ == old(self)@,
            },
    {
        let i = self.find(room);
        let ghost before = self@;
        if i < self.entries.len() && idx < self.entries[i].users.len() {
            let user = self.entries[i].users.remove(idx);
            assert(texts(self.entries[i as int].users@) =~= before[i as int].1.remove(
                idx as int,
            ));
            assert(user@ == before[i as int].1[idx as int]);
            assert(self@ =~~= before.update(
                i as int,
                (room@, before[i as int].1.remove(idx as int)),
            ));
            Some(user)
        } else {
            None
        }
    }

    /// Empties the record of `room` and returns the users that were in it.
    pub fn clear(&mut self, room: &str) -> (users: Vec<String>)
        ensures
            texts(users@) == users_in(old(self)@, room@),
            final(self)@ == with_users(old(self)@, room@, Seq::empty()),
    {
        let i = self.find(room);
        let ghost before = self@;
        if i < self.entries.len() {
            let mut users: Vec<String> = Vec::new();
            std::mem::swap(&mut users, &mut self.entries[i].users);
            assert(texts(self.entries[i as int].users@) =~= Seq::<Seq<char>>::empty());
            assert(self@ =~~= before.update(i as int, (room@, Seq::empty())));
            users
        } else {
            let users: Vec<String> = Vec::new();
            assert(texts(users@) =~= Seq::<Seq<char>>::empty());
            users
        }
    }

    /// The users recorded for `room`.
    pub fn users_of(&self, room: &str) -> (users: Vec<String>)
        ensures
            texts(users@) == users_in(self@, room@),
    {
        let i = self.find(room);
        let mut users: Vec<String> = Vec::new();
        if i < self.entries.len() {
            let list = &self.entries[i].users;
            let mut k: usize = 0;
            while k < list.len()
                invariant
                    k <= list.len(),
                    users.len() == k,
                    forall|j: int| 0 <= j < k ==> users[j]@ == list[j]@,
                decreases list.len() - k,
            {
                users.push(list[k].clone());
                k += 1;
            }
            assert(texts(users@) =~= texts(list@));
            assert(self@[i as int].1 == texts(list@));
        } else {
            assert(texts(users@) =~= Seq::<Seq<char>>::empty());
        }
        users
    }

    /// The names of the recorded rooms, oldest first.
    pub fn room_names(&self) -> (names: Vec<String>)
        ensures
            texts(names@) == self@.map_values(|e: (Seq<char>, Seq<Seq<char>>)| e.0),
    {
        let mut names: Vec<String> = Vec::new();
        let mut i: usize = 0;
        while i < self.entries.len()
            invariant
                i <= self.entries.len(),
                names.len() == i,
                forall|j: int| 0 <= j < i ==> names[j]@ == self@[j].0,
            decreases self.entries.len() - i,
        {
            names.push(self.entries[i].name.clone());
            i += 1;
        }
        assert(texts(names@) =~= self@.map_values(|e: (Seq<char>, Seq<Seq<char>>)| e.0));
        names
    }

    /// The names of the recorded rooms that have users, oldest first.
    pub fn rooms_with_users(&self) -> (names: Vec<String>)
        ensures
            texts(names@) == busy_rooms(self@, self@.len() as int),
    {
        let mut names: Vec<String> = Vec::new();
        let mut i: usize = 0;
        assert(texts(names@) =~= busy_rooms(self@, 0));
        while i < self.entries.len()
            invariant
                i <= self.entries.len(),
                self@.len() == self.entries.len(),
                texts(names@) == busy_rooms(self@, i as int),
            decreases self.entries.len() - i,
        {
            let ghost before = texts(names@);
            assert(self@[i as int].1.len() == self.entries[i as int].users.len());
            if !self.entries[i].users.is_empty() {
                names.push(self.entries[i].name.clone());
                assert(texts(names@) =~= before.push(self@[i as int].0));
            }
            i += 1;
        }
        names
    }
}

} // verus!
