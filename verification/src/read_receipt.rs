//! Private read markers: how far each user has read in each room.

use crate::error::{Error, ErrorKind, Reason};
use crate::globals;
use crate::json::{duplicate_object, members, object_remove, without_member, Json, JsonObject};
use crate::keymap::PairMap;
use crate::pdu_count::PduCount;
use vstd::prelude::*;

verus! {

/// A public read receipt: the receipt event of a user in a room, under the
/// counter value at which it was stored.
#[derive(Debug)]
pub struct Receipt {
    pub room_id: String,
    pub count: u64,
    pub user_id: String,
    pub event: JsonObject,
}

/// The mathematical value of a `Receipt`.
pub struct ReceiptModel {
    pub room_id: Seq<char>,
    pub count: u64,
    pub user_id: Seq<char>,
    pub event: Seq<(Seq<char>, Json)>,
}

impl Receipt {
    /// The mathematical value of the receipt.
    pub open spec fn model(&self) -> ReceiptModel {
        ReceiptModel {
            room_id: self.room_id@,
            count: self.count,
            user_id: self.user_id@,
            event: members(self.event@),
        }
    }
}

/// The mathematical values of a list of receipts.
pub open spec fn receipt_models(v: Seq<Receipt>) -> Seq<ReceiptModel> {
    Seq::new(v.len(), |i: int| v[i].model())
}

/// The index of the last receipt of `user` in `room`, if there is one.
pub open spec fn latest_of(s: Seq<ReceiptModel>, room: Seq<char>, user: Seq<char>) -> Option<int>
    decreases s.len(),
{
    if s.len() == 0 {
        None
    } else if s.last().room_id == room && s.last().user_id == user {
        Some(s.len() - 1)
    } else {
        latest_of(s.drop_last(), room, user)
    }
}

/// The receipts without the last one of `user` in `room`.
pub open spec fn without_latest(s: Seq<ReceiptModel>, room: Seq<char>, user: Seq<char>) -> Seq<
    ReceiptModel,
> {
    match latest_of(s, room, user) {
        Some(i) => s.remove(i),
        None => s,
    }
}

/// The index behind the last receipt whose counter value is at most `count`.
pub open spec fn slot_for(s: Seq<ReceiptModel>, count: u64) -> int
    decreases s.len(),
{
    if s.len() == 0 {
        0
    } else if s.last().count <= count {
        s.len() as int
    } else {
        slot_for(s.drop_last(), count)
    }
}

/// The receipts after `user` sent a new one in `room`, stored under
/// `count`: the user's last receipt in the room is gone, and the new one
/// stands behind the receipts with counter values up to its own.
pub open spec fn with_receipt(
    s: Seq<ReceiptModel>,
    room: Seq<char>,
    user: Seq<char>,
    count: u64,
    event: Seq<(Seq<char>, Json)>,
) -> Seq<ReceiptModel> {
    let rest = without_latest(s, room, user);
    rest.insert(
        slot_for(rest, count),
        ReceiptModel { room_id: room, count, user_id: user, event },
    )
}

/// The test "a receipt of `room` stored after the counter stood at `since`".
pub open spec fn newer_in(room: Seq<char>, since: u64) -> spec_fn(ReceiptModel) -> bool {
    |r: ReceiptModel| r.room_id == room && (r.count > since || since == u64::MAX && r.count == since)
}

/// A receipt as it is handed out: the user, the counter value, and the
/// event without the room it belongs to.
pub open spec fn handed_out(s: Seq<ReceiptModel>) -> Seq<(Seq<char>, u64, Seq<(Seq<char>, Json)>)> {
    Seq::new(s.len(), |i: int| (s[i].user_id, s[i].count, without_member(s[i].event, "room_id"@)))
}

/// The mathematical values of receipts that were handed out.
pub open spec fn handed_models(v: Seq<(String, u64, JsonObject)>) -> Seq<
    (Seq<char>, u64, Seq<(Seq<char>, Json)>),
> {
    Seq::new(v.len(), |i: int| (v[i].0@, v[i].1, members(v[i].2@)))
}

/// The counter value that a private read marker may be set to for an event
/// at `position`: the event must be there, and it must be a live one.
pub open spec fn marker_position(position: Option<PduCount>) -> Result<u64, Error> {
    match position {
        None => Err(Error::BadRequest(ErrorKind::InvalidParam, Reason::EventDoesNotExist)),
        Some(PduCount::Backfilled(_)) => Err(
            Error::BadRequest(ErrorKind::InvalidParam, Reason::BackfilledReadReceipt),
        ),
        Some(PduCount::Normal(c)) => Ok(c),
    }
}

/// Checks that a private read marker may point at an event at `position`.
pub fn private_marker_position(position: Option<PduCount>) -> (r: Result<u64, Error>)
    ensures
        r == marker_position(position),
{
    match position {
        None => Err(Error::BadRequest(ErrorKind::InvalidParam, Reason::EventDoesNotExist)),
        Some(PduCount::Backfilled(_)) => Err(
            Error::BadRequest(ErrorKind::InvalidParam, Reason::BackfilledReadReceipt),
        ),
        Some(PduCount::Normal(c)) => Ok(c),
    }
}

/// The tables of read markers and receipts.
pub struct Data {
    roomuserid_privateread: PairMap<u64>,
    roomuserid_lastprivatereadupdate: PairMap<u64>,
    readreceiptid_readreceipt: Vec<Receipt>,
}

impl Data {
    /// The tables are well formed.
    pub closed spec fn wf(&self) -> bool {
        self.roomuserid_privateread.wf() && self.roomuserid_lastprivatereadupdate.wf()
    }

    /// The private read marker of each (room, user) that has one.
    pub closed spec fn markers(&self) -> Map<(Seq<char>, Seq<char>), u64> {
        self.roomuserid_privateread@
    }

    /// The counter value at which each (room, user) last moved its marker.
    pub closed spec fn updates(&self) -> Map<(Seq<char>, Seq<char>), u64> {
        self.roomuserid_lastprivatereadupdate@
    }

    /// The public read receipts, in the order in which they are handed out.
    pub closed spec fn receipts(&self) -> Seq<ReceiptModel> {
        receipt_models(self.readreceiptid_readreceipt@)
    }

    /// Empty tables.
    pub fn new() -> (r: Self)
        ensures
            r.wf(),
            r.markers() == Map::<(Seq<char>, Seq<char>), u64>::empty(),
            r.updates() == Map::<(Seq<char>, Seq<char>), u64>::empty(),
            r.receipts() == Seq::<ReceiptModel>::empty(),
    {
        let r = Data {
            roomuserid_privateread: PairMap::new(),
            roomuserid_lastprivatereadupdate: PairMap::new(),
            readreceiptid_readreceipt: Vec::new(),
        };
        assert(r.receipts() =~= Seq::<ReceiptModel>::empty());
        r
    }

    /// The index of the last receipt of `user_id` in `room_id`.
    fn find_latest(&self, room_id: &String, user_id: &String) -> (r: Option<usize>)
        ensures
            match r {
                Some(i) => latest_of(self.receipts(), room_id@, user_id@) == Some(i as int) && i
                    < self.receipts().len(),
                None => latest_of(self.receipts(), room_id@, user_id@).is_none(),
            },
    {
        let ghost s = self.receipts();
        let mut i: usize = self.readreceiptid_readreceipt.len();
        assert(s.take(i as int) =~= s);
        while i > 0
            invariant
                i <= self.readreceiptid_readreceipt@.len(),
                s == self.receipts(),
                s.len() == self.readreceiptid_readreceipt@.len(),
                latest_of(s, room_id@, user_id@) == latest_of(s.take(i as int), room_id@, user_id@),
            decreases i,
        {
            let r = &self.readreceiptid_readreceipt[i - 1];
            proof {
                assert(s.take(i as int).last() == r.model());
                assert(s.take(i as int).drop_last() =~= s.take(i as int - 1));
            }
            if r.room_id == *room_id && r.user_id == *user_id {
                return Some(i - 1);
            }
            i -= 1;
        }
        None
    }

    /// The index behind the last receipt whose counter value is at most
    /// `count`.
    fn find_slot(&self, count: u64) -> (k: usize)
        ensures
            k == slot_for(self.receipts(), count),
            k <= self.receipts().len(),
    {
        let ghost s = self.receipts();
        let mut i: usize = self.readreceiptid_readreceipt.len();
        assert(s.take(i as int) =~= s);
        while i > 0
            invariant
                i <= self.readreceiptid_readreceipt@.len(),
                s == self.receipts(),
                s.len() == self.readreceiptid_readreceipt@.len(),
                slot_for(s, count) == slot_for(s.take(i as int), count),
            decreases i,
        {
            let r = &self.readreceiptid_readreceipt[i - 1];
            proof {
                assert(s.take(i as int).last() == r.model());
                assert(s.take(i as int).drop_last() =~= s.take(i as int - 1));
            }
            if r.count <= count {
                return i;
            }
            i -= 1;
        }
        0
    }

    /// Stores `event` as the public read receipt of `user_id` in `room_id`
    /// under the next value of the global counter, in place of the user's
    /// last receipt in the room. Where the counter has run out, the last
    /// receipt is gone all the same and the call fails.
    pub fn readreceipt_update(
        &mut self,
        globals: &mut globals::Data,
        user_id: &String,
        room_id: &String,
        event: &JsonObject,
    ) -> (r: Result<(), Error>)
        requires
            old(self).wf(),
        ensures
            final(self).wf(),
            final(self).markers() == old(self).markers(),
            final(self).updates() == old(self).updates(),
            final(globals).same_marks(old(globals)),
            final(globals).count() == old(globals).count_after(1),
            match old(globals).next_count_spec() {
                Ok(count) => r.is_ok() && final(self).receipts() == with_receipt(
                    old(self).receipts(),
                    room_id@,
                    user_id@,
                    count,
                    members(event@),
                ),
                Err(e) => r == Err::<(), Error>(e) && final(self).receipts() == without_latest(
                    old(self).receipts(),
                    room_id@,
                    user_id@,
                ),
            },
    {
        match self.find_latest(room_id, user_id) {
            Some(i) => {
                let ghost before = self.receipts();
                let _old = self.readreceiptid_readreceipt.remove(i);
                assert(self.receipts() =~= before.remove(i as int));
            },
            None => {},
        }
        let count = globals.next_count()?;
        let k = self.find_slot(count);
        let ghost rest = self.receipts();
        let receipt = Receipt {
            room_id: room_id.clone(),
            count,
            user_id: user_id.clone(),
            event: duplicate_object(event),
        };
        let ghost added = receipt.model();
        self.readreceiptid_readreceipt.insert(k, receipt);
        assert(self.receipts() =~= rest.insert(k as int, added));
        Ok(())
    }

    /// The public read receipts of `room_id` that were stored after the
    /// global counter stood at `since`, in the order of their storing: for
    /// each the user, the counter value, and the event without its room.
    pub fn readreceipts_since(&self, room_id: &String, since: u64) -> (r: Vec<
        (String, u64, JsonObject),
    >)
        ensures
            handed_models(r@) == handed_out(self.receipts().filter(newer_in(room_id@, since))),
    {
        let ghost s = self.receipts();
        let ghost p = newer_in(room_id@, since);
        let first_possible = if since == u64::MAX {
            since
        } else {
            since + 1
        };
        let mut out: Vec<(String, u64, JsonObject)> = Vec::new();
        let mut i: usize = 0;
        proof {
            reveal(Seq::filter);
            assert(s.take(0) =~= Seq::<ReceiptModel>::empty());
            assert(handed_models(out@) =~= handed_out(s.take(0).filter(p)));
        }
        while i < self.readreceiptid_readreceipt.len()
            invariant
                i <= self.readreceiptid_readreceipt@.len(),
                s == self.receipts(),
                s.len() == self.readreceiptid_readreceipt@.len(),
                p == newer_in(room_id@, since),
                first_possible == (if since == u64::MAX {
                    since
                } else {
                    (since + 1) as u64
                }),
                handed_models(out@) == handed_out(s.take(i as int).filter(p)),
            decreases self.readreceiptid_readreceipt@.len() - i,
        {
            let r = &self.readreceiptid_readreceipt[i];
            proof {
                reveal(Seq::filter);
                assert(s.take(i as int + 1).drop_last() =~= s.take(i as int));
                assert(s.take(i as int + 1).last() == r.model());
            }
            if r.room_id == *room_id && r.count >= first_possible {
                assert(p(r.model()));
                let mut event = duplicate_object(&r.event);
                let key = "room_id".to_owned();
                object_remove(&mut event, &key);
                let ghost before = handed_models(out@);
                out.push((r.user_id.clone(), r.count, event));
                let ghost item = (r.user_id@, r.count, without_member(members(r.event@), "room_id"@));
                assert(handed_models(out@) =~= before.push(item));
                assert(handed_out(s.take(i as int + 1).filter(p)) =~= handed_out(
                    s.take(i as int).filter(p),
                ).push(item));
            } else {
                assert(!p(r.model()));
            }
            i += 1;
        }
        assert(s.take(s.len() as int) =~= s);
        out
    }

    /// Sets the private read marker of `user_id` in `room_id` to `count` and
    /// stamps the change with the next value of the global counter. Where the
    /// counter has run out the marker is set all the same, the stamp is not,
    /// and the call fails.
    pub fn private_read_set(
        &mut self,
        globals: &mut globals::Data,
        room_id: &String,
        user_id: &String,
        count: u64,
    ) -> (r: Result<(), Error>)
        requires
            old(self).wf(),
        ensures
            final(self).wf(),
            final(self).markers() == old(self).markers().insert((room_id@, user_id@), count),
            final(self).receipts() == old(self).receipts(),
            final(globals).same_marks(old(globals)),
            final(globals).count() == old(globals).count_after(1),
            match old(globals).next_count_spec() {
                Ok(stamp) => r.is_ok() && final(self).updates() == old(self).updates().insert(
                    (room_id@, user_id@),
                    stamp,
                ),
                Err(e) => r == Err::<(), Error>(e) && final(self).updates() == old(self).updates(),
            },
    {
        self.roomuserid_privateread.insert((room_id.clone(), user_id.clone()), count);
        let stamp = globals.next_count()?;
        self.roomuserid_lastprivatereadupdate.insert((room_id.clone(), user_id.clone()), stamp);
        Ok(())
    }

    /// The private read marker of `user_id` in `room_id`, if one was set.
    pub fn private_read_get(&self, room_id: &String, user_id: &String) -> (r: Result<
        Option<u64>,
        Error,
    >)
        requires
            self.wf(),
        ensures
            r == Ok::<Option<u64>, Error>(
                if self.markers().contains_key((room_id@, user_id@)) {
                    Some(self.markers()[(room_id@, user_id@)])
                } else {
                    None
                },
            ),
    {
        let key = (room_id.clone(), user_id.clone());
        match self.roomuserid_privateread.get(&key) {
            Some(v) => Ok(Some(*v)),
            None => Ok(None),
        }
    }

    /// The counter value at which `user_id` last moved its private read
    /// marker in `room_id`; 0 where it never did.
    pub fn last_privateread_update(&self, user_id: &String, room_id: &String) -> (r: Result<
        u64,
        Error,
    >)
        requires
            self.wf(),
        ensures
            r == Ok::<u64, Error>(
                if self.updates().contains_key((room_id@, user_id@)) {
                    self.updates()[(room_id@, user_id@)]
                } else {
                    0
                },
            ),
    {
        let key = (room_id.clone(), user_id.clone());
        match self.roomuserid_lastprivatereadupdate.get(&key) {
            Some(v) => Ok(*v),
            None => Ok(0),
        }
    }
}

} // verus!
