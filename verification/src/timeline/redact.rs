//! Replacing a stored event by its redacted form.

use super::content::{body_of, extract_body};
use super::data::{
    counter_bound, entry_at, with_entry, with_entry_facts, with_entry_keeps_bound, PduId, Stored,
};
use super::Service;
use crate::error::{Error, ErrorKind, Reason};
use crate::json::Json;
use crate::pdu::{canonical_form, redact_result, PduEvent, RoomVersion};
use vstd::prelude::*;

verus! {

/// What a redaction did: the position of the redacted event and the text
/// body that it had, which is to leave the search index.
#[derive(Debug)]
pub struct Redacted {
    /// The short room identifier under which the body was indexed.
    pub shortroomid: u64,
    pub pdu_id: PduId,
    pub deindexed_body: Option<String>,
}

/// The text of an optional body, where the body could be read.
pub open spec fn flat_body(b: Option<Option<Seq<char>>>) -> Option<Seq<char>> {
    match b {
        Some(Some(t)) => Some(t),
        _ => None,
    }
}

/// The entry that the redaction of `event_id` puts in place of the stored
/// one: nothing where the event has no position; a failure where its
/// position holds no event (which does not happen in a well-formed store),
/// where the room version is unknown, or where the
/// event cannot be redacted.
pub open spec fn redaction_of(
    stored: Seq<Stored>,
    positions: Map<Seq<char>, PduId>,
    event_id: Seq<char>,
    reason: Result<Seq<(Seq<char>, Json)>, Error>,
    version: RoomVersion,
) -> Result<Option<Stored>, Error> {
    if !positions.contains_key(event_id) {
        Ok(None)
    } else {
        match entry_at(stored, positions[event_id]) {
            None => Err(Error::BadDatabase(Reason::InvalidPduId)),
            Some(e) => if !version.is_supported() {
                Err(Error::BadRequest(ErrorKind::BadJson, Reason::UnsupportedRoomVersion))
            } else {
                match redact_result(e.pdu, reason, version) {
                    Err(x) => Err(x),
                    Ok(p) => match canonical_form(p) {
                        Err(x) => Err(x),
                        Ok(j) => Ok(Some(Stored { id: e.id, pdu: p, json: j })),
                    },
                }
            },
        }
    }
}

impl Service {
    /// Replaces the stored event `event_id` by its redacted form, under the
    /// rules of `room_version`, for the reason given by the redacting event
    /// `reason`. The event keeps its identifier and its position. An event
    /// without a position is left alone, and that is no failure. Redacting
    /// the same event again for the same reason stores the same entry again.
    pub fn redact_pdu(
        &mut self,
        event_id: &String,
        reason: &PduEvent,
        shortroomid: u64,
        room_version: RoomVersion,
    ) -> (r: Result<Option<Redacted>, Error>)
        requires
            old(self).wf(),
        ensures
            final(self).wf(),
            final(self).positions() == old(self).positions(),
            final(self).outliers() == old(self).outliers(),
            final(self).last_counts() == old(self).last_counts(),
            final(self).insert_gate() == old(self).insert_gate(),
            final(self).stored().len() == old(self).stored().len(),
            forall|c: u64|
                counter_bound(old(self).stored(), c) ==> #[trigger] counter_bound(
                    final(self).stored(),
                    c,
                ),
            match r {
                Ok(Some(done)) => {
                    &&& redaction_of(
                        old(self).stored(),
                        old(self).positions(),
                        event_id@,
                        reason.to_canonical_object_spec(),
                        room_version,
                    ) matches Ok(Some(e))
                    &&& final(self).stored() == with_entry(old(self).stored(), e)
                    &&& done.pdu_id == e.id
                    &&& done.shortroomid == shortroomid
                    &&& done.pdu_id == old(self).positions()[event_id@]
                    &&& e.pdu.event_id == entry_at(old(self).stored(), e.id).unwrap().pdu.event_id
                    &&& crate::pdu::opt_text(done.deindexed_body) == flat_body(
                        body_of(entry_at(old(self).stored(), e.id).unwrap().pdu.content),
                    )
                    &&& redaction_of(
                        final(self).stored(),
                        final(self).positions(),
                        event_id@,
                        reason.to_canonical_object_spec(),
                        room_version,
                    ) == Ok::<Option<Stored>, Error>(Some(e))
                },
                Ok(None) => redaction_of(
                    old(self).stored(),
                    old(self).positions(),
                    event_id@,
                    reason.to_canonical_object_spec(),
                    room_version,
                ) == Ok::<Option<Stored>, Error>(None) && final(self).stored() == old(
                    self,
                ).stored(),
                Err(x) => redaction_of(
                    old(self).stored(),
                    old(self).positions(),
                    event_id@,
                    reason.to_canonical_object_spec(),
                    room_version,
                ) == Err::<Option<Stored>, Error>(x) && final(self).stored() == old(self).stored(),
            },
    {
        let pdu_id = match self.db.get_pdu_id(event_id)? {
            Some(id) => id,
            None => {
                return Ok(None);
            },
        };
        let mut pdu = match self.db.get_pdu_from_id(&pdu_id)? {
            Some(p) => p.duplicate(),
            None => {
                return Err(Error::BadDatabase(Reason::InvalidPduId));
            },
        };
        if !room_version.supported() {
            return Err(Error::BadRequest(ErrorKind::BadJson, Reason::UnsupportedRoomVersion));
        }
        let body = match extract_body(&pdu.content) {
            Some(Some(b)) => Some(b),
            _ => None,
        };
        pdu.redact(room_version, reason)?;
        let json = pdu.to_canonical_object()?;
        let ghost e = Stored { id: pdu_id, pdu: pdu.model(), json: crate::json::members(json@) };
        proof {
            self.db.stored_ascending();
            with_entry_facts(self.stored(), e);
            let s0 = self.stored();
            assert forall|c: u64| counter_bound(s0, c) implies #[trigger] counter_bound(
                with_entry(s0, e),
                c,
            ) by {
                let i = choose|i: int| 0 <= i < s0.len() && s0[i].id == pdu_id;
                assert(s0[i].id.count.raw() <= c);
                with_entry_keeps_bound(s0, e, c, c);
            }
        }
        let replaced = self.db.replace_pdu(&pdu_id, &json, &pdu);
        assert(replaced.is_ok());
        Ok(Some(Redacted { shortroomid, pdu_id, deindexed_body: body }))
    }
}

} // verus!
