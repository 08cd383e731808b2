//! Per-user room bookkeeping: unread counters and sync tokens.

use crate::error::Error;
use crate::globals;
use crate::keymap::{KeyMap, PairMap};
use crate::text::{contains, texts};
use vstd::prelude::*;

verus! {

/// The counters of unread notifications and highlights of each user in each
/// room, and the state snapshots that sync tokens stand for.
pub struct Service {
    userroomid_notificationcount: PairMap<u64>,
    userroomid_highlightcount: PairMap<u64>,
    roomuserid_lastnotificationread: PairMap<u64>,
    roomsynctoken_shortstatehash: KeyMap<(String, u64), u64>,
}

/// The value of a counter table at `key`; 0 where the key is absent.
pub open spec fn count_at(m: Map<(Seq<char>, Seq<char>), u64>, key: (Seq<char>, Seq<char>)) -> u64 {
    if m.contains_key(key) {
        m[key]
    } else {
        0
    }
}

/// One more than `n`, or `n` itself where no larger value exists.
pub open spec fn bumped(n: u64) -> u64 {
    if n < u64::MAX {
        (n + 1) as u64
    } else {
        n
    }
}

/// The counter table after the counter of each of `users` in `room` went up
/// by one, once per occurrence in the list.
pub open spec fn bump_all(
    m: Map<(Seq<char>, Seq<char>), u64>,
    users: Seq<Seq<char>>,
    room: Seq<char>,
) -> Map<(Seq<char>, Seq<char>), u64>
    decreases users.len(),
{
    if users.len() == 0 {
        m
    } else {
        let before = bump_all(m, users.drop_last(), room);
        before.insert((users.last(), room), bumped(count_at(before, (users.last(), room))))
    }
}

/// The rooms of each of a list of users.
pub open spec fn room_lists(joined: Seq<Vec<String>>) -> Seq<Seq<Seq<char>>> {
    Seq::new(joined.len(), |i: int| texts(joined[i]@))
}

/// Whether `room` is among the rooms of every user.
pub open spec fn shared_by_all(lists: Seq<Seq<Seq<char>>>, room: Seq<char>) -> bool {
    forall|i: int| 0 <= i < lists.len() ==> (#[trigger] lists[i]).contains(room)
}

/// The test "among the rooms of every user".
pub open spec fn is_shared(lists: Seq<Seq<Seq<char>>>) -> spec_fn(Seq<char>) -> bool {
    |room: Seq<char>| shared_by_all(lists, room)
}

/// The rooms that all of the users have joined, in the order in which the
/// first user's rooms are given. `joined` holds the rooms of each user, and
/// there is at least one user.
pub fn shared_rooms(joined: &Vec<Vec<String>>) -> (r: Result<Vec<String>, Error>)
    requires
        joined@.len() > 0,
    ensures
        r matches Ok(rooms) && texts(rooms@) == room_lists(joined@)[0].filter(
            is_shared(room_lists(joined@)),
        ),
{
    let ghost lists = room_lists(joined@);
    let ghost first = lists[0];
    let ghost p = is_shared(lists);
    let mut out: Vec<String> = Vec::new();
    let mut i: usize = 0;
    proof {
        reveal(Seq::filter);
        assert(first.take(0) =~= Seq::<Seq<char>>::empty());
        assert(texts(out@) =~= first.take(0).filter(p));
    }
    while i < joined[0].len()
        invariant
            joined@.len() > 0,
            i <= joined@[0]@.len(),
            lists == room_lists(joined@),
            first == lists[0],
            first == texts(joined@[0]@),
            p == is_shared(lists),
            texts(out@) == first.take(i as int).filter(p),
        decreases joined@[0]@.len() - i,
    {
        let room = &joined[0][i];
        proof {
            reveal(Seq::filter);
            assert(first.take(i as int + 1).drop_last() =~= first.take(i as int));
            assert(first.take(i as int + 1).last() == room@);
        }
        let mut k: usize = 0;
        let mut all = true;
        while k < joined.len()
            invariant
                k <= joined@.len(),
                lists == room_lists(joined@),
                all == (forall|j: int| 0 <= j < k ==> (#[trigger] lists[j]).contains(room@)),
            decreases joined@.len() - k,
        {
            if !contains(&joined[k], room) {
                assert(lists[k as int] == texts(joined@[k as int]@));
                all = false;
            } else {
                assert(lists[k as int] == texts(joined@[k as int]@));
            }
            k += 1;
        }
        if all {
            assert(p(room@));
            let ghost before = texts(out@);
            out.push(room.clone());
            assert(texts(out@) =~= before.push(room@));
        } else {
            assert(!p(room@));
        }
        i += 1;
    }
    assert(first.take(joined@[0]@.len() as int) =~= first);
    Ok(out)
}

impl Service {
    /// The tables are well formed.
    pub closed spec fn wf(&self) -> bool {
        &&& self.userroomid_notificationcount.wf()
        &&& self.userroomid_highlightcount.wf()
        &&& self.roomuserid_lastnotificationread.wf()
        &&& self.roomsynctoken_shortstatehash.wf()
    }

    /// The unread notifications, by (user, room).
    pub closed spec fn notifications(&self) -> Map<(Seq<char>, Seq<char>), u64> {
        self.userroomid_notificationcount@
    }

    /// The unread highlights, by (user, room).
    pub closed spec fn highlights(&self) -> Map<(Seq<char>, Seq<char>), u64> {
        self.userroomid_highlightcount@
    }

    /// The counter value at which the counters were last reset, by (room, user).
    pub closed spec fn last_reads(&self) -> Map<(Seq<char>, Seq<char>), u64> {
        self.roomuserid_lastnotificationread@
    }

    /// The state snapshot behind each sync token, by (room, token).
    pub closed spec fn tokens(&self) -> Map<(Seq<char>, u64), u64> {
        self.roomsynctoken_shortstatehash@
    }

    /// Empty tables.
    pub fn new() -> (r: Self)
        ensures
            r.wf(),
            r.notifications() == Map::<(Seq<char>, Seq<char>), u64>::empty(),
            r.highlights() == Map::<(Seq<char>, Seq<char>), u64>::empty(),
            r.last_reads() == Map::<(Seq<char>, Seq<char>), u64>::empty(),
            r.tokens() == Map::<(Seq<char>, u64), u64>::empty(),
    {
        Service {
            userroomid_notificationcount: PairMap::new(),
            userroomid_highlightcount: PairMap::new(),
            roomuserid_lastnotificationread: PairMap::new(),
            roomsynctoken_shortstatehash: KeyMap::new(),
        }
    }

    /// Sets both unread counters of `user_id` in `room_id` to zero and stamps
    /// the reset with the next value of the global counter. Where the counter
    /// has run out the counters are zero all the same, the stamp is not set,
    /// and the call fails.
    pub fn reset_notification_counts(
        &mut self,
        globals: &mut globals::Data,
        user_id: &String,
        room_id: &String,
    ) -> (r: Result<(), Error>)
        requires
            old(self).wf(),
        ensures
            final(self).wf(),
            final(self).notifications() == old(self).notifications().insert(
                (user_id@, room_id@),
                0,
            ),
            final(self).highlights() == old(self).highlights().insert((user_id@, room_id@), 0),
            final(self).tokens() == old(self).tokens(),
            final(globals).same_marks(old(globals)),
            final(globals).count() == old(globals).count_after(1),
            match old(globals).next_count_spec() {
                Ok(stamp) => r.is_ok() && final(self).last_reads() == old(self).last_reads().insert(
                    (room_id@, user_id@),
                    stamp,
                ),
                Err(e) => r == Err::<(), Error>(e) && final(self).last_reads() == old(
                    self,
                ).last_reads(),
            },
    {
        self.userroomid_notificationcount.insert((user_id.clone(), room_id.clone()), 0);
        self.userroomid_highlightcount.insert((user_id.clone(), room_id.clone()), 0);
        let stamp = globals.next_count()?;
        self.roomuserid_lastnotificationread.insert((room_id.clone(), user_id.clone()), stamp);
        Ok(())
    }

    /// The unread notifications of `user_id` in `room_id`.
    pub fn notification_count(&self, user_id: &String, room_id: &String) -> (r: Result<u64, Error>)
        requires
            self.wf(),
        ensures
            r == Ok::<u64, Error>(count_at(self.notifications(), (user_id@, room_id@))),
    {
        let key = (user_id.clone(), room_id.clone());
        match self.userroomid_notificationcount.get(&key) {
            Some(v) => Ok(*v),
            None => Ok(0),
        }
    }

    /// The unread highlights of `user_id` in `room_id`.
    pub fn highlight_count(&self, user_id: &String, room_id: &String) -> (r: Result<u64, Error>)
        requires
            self.wf(),
        ensures
            r == Ok::<u64, Error>(count_at(self.highlights(), (user_id@, room_id@))),
    {
        let key = (user_id.clone(), room_id.clone());
        match self.userroomid_highlightcount.get(&key) {
            Some(v) => Ok(*v),
            None => Ok(0),
        }
    }

    /// The counter value at which the unread counters of `user_id` in
    /// `room_id` were last reset; 0 where they never were.
    pub fn last_notification_read(&self, user_id: &String, room_id: &String) -> (r: Result<
        u64,
        Error,
    >)
        requires
            self.wf(),
        ensures
            r == Ok::<u64, Error>(count_at(self.last_reads(), (room_id@, user_id@))),
    {
        let key = (room_id.clone(), user_id.clone());
        match self.roomuserid_lastnotificationread.get(&key) {
            Some(v) => Ok(*v),
            None => Ok(0),
        }
    }

    /// Records that the sync token `token` of `room_id` stands for the state
    /// snapshot `shortstatehash`.
    pub fn associate_token_shortstatehash(
        &mut self,
        room_id: &String,
        token: u64,
        shortstatehash: u64,
    ) -> (r: Result<(), Error>)
        requires
            old(self).wf(),
        ensures
            final(self).wf(),
            r.is_ok(),
            final(self).tokens() == old(self).tokens().insert((room_id@, token), shortstatehash),
            final(self).notifications() == old(self).notifications(),
            final(self).highlights() == old(self).highlights(),
            final(self).last_reads() == old(self).last_reads(),
    {
        self.roomsynctoken_shortstatehash.insert((room_id.clone(), token), shortstatehash);
        Ok(())
    }

    /// The state snapshot that the sync token `token` of `room_id` stands
    /// for, if one was recorded.
    pub fn get_token_shortstatehash(&self, room_id: &String, token: u64) -> (r: Result<
        Option<u64>,
        Error,
    >)
        requires
            self.wf(),
        ensures
            r == Ok::<Option<u64>, Error>(
                if self.tokens().contains_key((room_id@, token)) {
                    Some(self.tokens()[(room_id@, token)])
                } else {
                    None
                },
            ),
    {
        let key = (room_id.clone(), token);
        match self.roomsynctoken_shortstatehash.get(&key) {
            Some(v) => Ok(Some(*v)),
            None => Ok(None),
        }
    }

    fn bump(table: &mut PairMap<u64>, users: &Vec<String>, room_id: &String)
        requires
            old(table).wf(),
        ensures
            final(table).wf(),
            final(table)@ == bump_all(old(table)@, texts(users@), room_id@),
    {
        let mut i: usize = 0;
        assert(texts(users@).take(0) =~= Seq::<Seq<char>>::empty());
        while i < users.len()
            invariant
                i <= users@.len(),
                table.wf(),
                table@ == bump_all(old(table)@, texts(users@).take(i as int), room_id@),
            decreases users@.len() - i,
        {
            proof {
                let s1 = texts(users@).take(i as int + 1);
                assert(s1.drop_last() =~= texts(users@).take(i as int));
                assert(s1.last() == users@[i as int]@);
            }
            let key = (users[i].clone(), room_id.clone());
            let n = match table.get(&key) {
                Some(v) => *v,
                None => 0,
            };
            let m = if n < u64::MAX {
                n + 1
            } else {
                n
            };
            table.insert(key, m);
            i += 1;
        }
        assert(texts(users@).take(users@.len() as int) =~= texts(users@));
    }

    /// The rooms that all of the users have joined, given the rooms of each
    /// user; there is at least one user.
    pub fn get_shared_rooms(&self, joined: &Vec<Vec<String>>) -> (r: Result<Vec<String>, Error>)
        requires
            joined@.len() > 0,
        ensures
            r matches Ok(rooms) && texts(rooms@) == room_lists(joined@)[0].filter(
                is_shared(room_lists(joined@)),
            ),
    {
        shared_rooms(joined)
    }

    /// Raises the unread notifications of each of `notifies` and the unread
    /// highlights of each of `highlights` in `room_id` by one.
    pub fn increment_notification_counts(
        &mut self,
        room_id: &String,
        notifies: &Vec<String>,
        highlights: &Vec<String>,
    ) -> (r: Result<(), Error>)
        requires
            old(self).wf(),
        ensures
            final(self).wf(),
            r.is_ok(),
            final(self).notifications() == bump_all(
                old(self).notifications(),
                texts(notifies@),
                room_id@,
            ),
            final(self).highlights() == bump_all(
                old(self).highlights(),
                texts(highlights@),
                room_id@,
            ),
            final(self).last_reads() == old(self).last_reads(),
            final(self).tokens() == old(self).tokens(),
    {
        Self::bump(&mut self.userroomid_notificationcount, notifies, room_id);
        Self::bump(&mut self.userroomid_highlightcount, highlights, room_id);
        Ok(())
    }
}

} // verus!
