//! Events as the library holds them.

use crate::error::{Error, Reason};
use crate::json::{
    duplicate_object, members, object_is_canonical, Json, JsonObject, JsonValue,
    MAX_SAFE_INT,
};
use crate::protocol::{redact_content, redacted_content};
use crate::text::{copy_all, texts};
use vstd::prelude::*;

verus! {

/// The rule set that a room follows.
#[derive(Clone, Copy, Debug, PartialEq, Eq, Hash, Structural)]
pub enum RoomVersion {
    V1,
    V2,
    V3,
    V4,
    V5,
    V6,
    V7,
    V8,
    V9,
    V10,
    V11,
    /// A rule set that this library does not know.
    Other,
}

impl RoomVersion {
    /// Whether the rule set is one that this library knows.
    pub open spec fn is_supported(self) -> bool {
        self != RoomVersion::Other
    }

    /// Whether events of this rule set carry their identifier in their
    /// stored JSON form.
    pub open spec fn keeps_event_id(self) -> bool {
        self == RoomVersion::V1 || self == RoomVersion::V2
    }

    /// Whether a redaction of this rule set names its target in its content
    /// rather than at the top of the event.
    pub open spec fn redacts_in_content(self) -> bool {
        self == RoomVersion::V11
    }

    /// The rule set that the text `v` names.
    pub open spec fn of_text(v: Seq<char>) -> RoomVersion {
        if v == "1"@ {
            RoomVersion::V1
        } else if v == "2"@ {
            RoomVersion::V2
        } else if v == "3"@ {
            RoomVersion::V3
        } else if v == "4"@ {
            RoomVersion::V4
        } else if v == "5"@ {
            RoomVersion::V5
        } else if v == "6"@ {
            RoomVersion::V6
        } else if v == "7"@ {
            RoomVersion::V7
        } else if v == "8"@ {
            RoomVersion::V8
        } else if v == "9"@ {
            RoomVersion::V9
        } else if v == "10"@ {
            RoomVersion::V10
        } else if v == "11"@ {
            RoomVersion::V11
        } else {
            RoomVersion::Other
        }
    }

    /// The rule set that the text `v` names.
    pub fn from_text(v: &String) -> (r: RoomVersion)
        ensures
            r == RoomVersion::of_text(v@),
    {
        if kind_is(v, "1") {
            RoomVersion::V1
        } else if kind_is(v, "2") {
            RoomVersion::V2
        } else if kind_is(v, "3") {
            RoomVersion::V3
        } else if kind_is(v, "4") {
            RoomVersion::V4
        } else if kind_is(v, "5") {
            RoomVersion::V5
        } else if kind_is(v, "6") {
            RoomVersion::V6
        } else if kind_is(v, "7") {
            RoomVersion::V7
        } else if kind_is(v, "8") {
            RoomVersion::V8
        } else if kind_is(v, "9") {
            RoomVersion::V9
        } else if kind_is(v, "10") {
            RoomVersion::V10
        } else if kind_is(v, "11") {
            RoomVersion::V11
        } else {
            RoomVersion::Other
        }
    }

    /// Whether the rule set is one that this library knows.
    pub fn supported(&self) -> (b: bool)
        ensures
            b == self.is_supported(),
    {
        match self {
            RoomVersion::Other => false,
            _ => true,
        }
    }
}

/// The content hash of an event.
#[derive(Debug)]
pub struct EventHash {
    /// The SHA-256 hash, in base64.
    pub sha256: String,
}

/// An event of a room's history graph.
#[derive(Debug)]
pub struct PduEvent {
    pub event_id: String,
    pub room_id: String,
    pub sender: String,
    /// The server that created the event; none for an event created here.
    pub origin: Option<String>,
    pub origin_server_ts: u64,
    /// The event-type tag, such as `m.room.message`.
    pub kind: String,
    pub content: JsonValue,
    /// Present exactly for state events.
    pub state_key: Option<String>,
    /// The causal parents.
    pub prev_events: Vec<String>,
    pub depth: u64,
    pub auth_events: Vec<String>,
    pub redacts: Option<String>,
    pub unsigned: Option<JsonObject>,
    pub hashes: EventHash,
    pub signatures: Option<JsonObject>,
}

/// What a new event is made from.
#[derive(Debug)]
pub struct PduBuilder {
    pub event_type: String,
    pub content: JsonValue,
    pub unsigned: Option<JsonObject>,
    pub state_key: Option<String>,
    pub redacts: Option<String>,
}

/// The mathematical value of an event.
pub struct Pdu {
    pub event_id: Seq<char>,
    pub room_id: Seq<char>,
    pub sender: Seq<char>,
    pub origin: Option<Seq<char>>,
    pub origin_server_ts: u64,
    pub kind: Seq<char>,
    pub content: Json,
    pub state_key: Option<Seq<char>>,
    pub prev_events: Seq<Seq<char>>,
    pub depth: u64,
    pub auth_events: Seq<Seq<char>>,
    pub redacts: Option<Seq<char>>,
    pub unsigned: Option<Seq<(Seq<char>, Json)>>,
    pub sha256: Seq<char>,
    pub signatures: Option<Seq<(Seq<char>, Json)>>,
}

/// The text of an optional string.
pub open spec fn opt_text(s: Option<String>) -> Option<Seq<char>> {
    match s {
        Some(s) => Some(s@),
        None => None,
    }
}

/// The members of an optional object.
pub open spec fn opt_members(o: Option<JsonObject>) -> Option<Seq<(Seq<char>, Json)>> {
    match o {
        Some(o) => Some(members(o@)),
        None => None,
    }
}

/// The type tag of room creation events.
pub open spec fn room_create() -> Seq<char> {
    "m.room.create"@
}

/// The type tag of membership events.
pub open spec fn room_member() -> Seq<char> {
    "m.room.member"@
}

/// The type tag of message events.
pub open spec fn room_message() -> Seq<char> {
    "m.room.message"@
}

/// The type tag of redaction events.
pub open spec fn room_redaction() -> Seq<char> {
    "m.room.redaction"@
}

/// The type tag of the events that switch encryption on.
pub open spec fn room_encryption() -> Seq<char> {
    "m.room.encryption"@
}

/// The type tag of the events that place a room in a space.
pub open spec fn space_child() -> Seq<char> {
    "m.space.child"@
}

/// Whether `kind` is the type tag `tag`.
pub fn kind_is(kind: &String, tag: &str) -> (b: bool)
    ensures
        b == (kind@ == tag@),
{
    let t = tag.to_owned();
    *kind == t
}

/// A copy of an optional string.
pub fn copy_opt(s: &Option<String>) -> (r: Option<String>)
    ensures
        opt_text(r) == opt_text(*s),
{
    match s {
        Some(s) => Some(s.clone()),
        None => None,
    }
}

/// A copy of an optional object.
pub fn copy_opt_object(o: &Option<JsonObject>) -> (r: Option<JsonObject>)
    ensures
        opt_members(r) == opt_members(*o),
{
    match o {
        Some(o) => Some(duplicate_object(o)),
        None => None,
    }
}

impl PduEvent {
    /// The mathematical value of the event.
    pub open spec fn model(&self) -> Pdu {
        Pdu {
            event_id: self.event_id@,
            room_id: self.room_id@,
            sender: self.sender@,
            origin: opt_text(self.origin),
            origin_server_ts: self.origin_server_ts,
            kind: self.kind@,
            content: self.content.model(),
            state_key: opt_text(self.state_key),
            prev_events: texts(self.prev_events@),
            depth: self.depth,
            auth_events: texts(self.auth_events@),
            redacts: opt_text(self.redacts),
            unsigned: opt_members(self.unsigned),
            sha256: self.hashes.sha256@,
            signatures: opt_members(self.signatures),
        }
    }

    /// A copy of the event.
    pub fn duplicate(&self) -> (r: PduEvent)
        ensures
            r.model() == self.model(),
    {
        PduEvent {
            event_id: self.event_id.clone(),
            room_id: self.room_id.clone(),
            sender: self.sender.clone(),
            origin: copy_opt(&self.origin),
            origin_server_ts: self.origin_server_ts,
            kind: self.kind.clone(),
            content: self.content.duplicate(),
            state_key: copy_opt(&self.state_key),
            prev_events: copy_all(&self.prev_events),
            depth: self.depth,
            auth_events: copy_all(&self.auth_events),
            redacts: copy_opt(&self.redacts),
            unsigned: copy_opt_object(&self.unsigned),
            hashes: EventHash { sha256: self.hashes.sha256.clone() },
            signatures: copy_opt_object(&self.signatures),
        }
    }

    /// Redacts the event under the rules of `version`, for the reason given
    /// by the redacting event `reason`. The identifier of the event stays as
    /// it is. Redacting the result once more, for the same reason, changes
    /// nothing. An event that cannot be redacted stays as it is.
    pub fn redact(&mut self, version: RoomVersion, reason: &PduEvent) -> (r: Result<(), Error>)
        requires
            version.is_supported(),
        ensures
            match r {
                Ok(()) => {
                    &&& redact_result(old(self).model(), reason.to_canonical_object_spec(), version)
                        == Ok::<Pdu, Error>(final(self).model())
                    &&& redact_result(
                        final(self).model(),
                        reason.to_canonical_object_spec(),
                        version,
                    ) == Ok::<Pdu, Error>(final(self).model())
                    &&& final(self).model().event_id == old(self).model().event_id
                },
                Err(e) => {
                    &&& redact_result(old(self).model(), reason.to_canonical_object_spec(), version)
                        == Err::<Pdu, Error>(e)
                    &&& final(self).model() == old(self).model()
                },
            },
    {
        let kept = match &self.content {
            JsonValue::Object(c) => {
                if !object_is_canonical(c) {
                    return Err(Error::BadDatabase(Reason::InvalidStoredContent));
                }
                match redact_content(c, version, &self.kind) {
                    Some(kept) => kept,
                    None => {
                        return Err(Error::Redaction(Reason::RedactionFailed));
                    },
                }
            },
            _ => {
                return Err(Error::BadDatabase(Reason::InvalidStoredContent));
            },
        };
        let because = match reason.to_canonical_object() {
            Ok(o) => o,
            Err(_) => {
                return Err(Error::BadDatabase(Reason::NoCanonicalJson));
            },
        };
        let mut unsigned: JsonObject = Vec::new();
        unsigned.push(("redacted_because".to_owned(), JsonValue::Object(because)));
        assert(members(unsigned@) =~= seq![
            ("redacted_because"@, Json::Object(reason.to_canonical_object_spec().unwrap())),
        ]);
        self.content = JsonValue::Object(kept);
        self.unsigned = Some(unsigned);
        Ok(())
    }

    /// Drops the sender's transaction identifier from the unsigned part.
    pub fn remove_transaction_id(&mut self)
        ensures
            final(self).model() == without_transaction_id(old(self).model()),
    {
        match &mut self.unsigned {
            Some(u) => {
                let key = "transaction_id".to_owned();
                crate::json::object_remove(u, &key);
            },
            None => {},
        }
    }

    /// The event-type tag.
    pub fn event_type(&self) -> (r: &String)
        ensures
            r@ == self.model().kind,
    {
        &self.kind
    }

    /// The state key, for a state event.
    pub fn state_key(&self) -> (r: Option<&String>)
        ensures
            match r {
                Some(k) => self.model().state_key == Some(k@),
                None => self.model().state_key.is_none(),
            },
    {
        match &self.state_key {
            Some(k) => Some(k),
            None => None,
        }
    }
}

/// The event without the transaction identifier in its unsigned part.
pub open spec fn without_transaction_id(p: Pdu) -> Pdu {
    Pdu {
        unsigned: match p.unsigned {
            Some(u) => Some(crate::json::without_member(u, "transaction_id"@)),
            None => None,
        },
        ..p
    }
}

/// The event as `user` gets to see it: the transaction identifier is for
/// the sender's eyes only.
pub open spec fn shown_to(p: Pdu, user: Seq<char>) -> Pdu {
    if p.sender == user {
        p
    } else {
        without_transaction_id(p)
    }
}

/// What redaction makes of an event, given the JSON form of the redacting
/// event: the content keeps what redaction keeps of it and the unsigned part
/// names the redacting event, nothing else changes. It fails where the
/// content is no canonical object, where it cannot be redacted, and where
/// the redacting event has no canonical form.
pub open spec fn redact_result(
    p: Pdu,
    reason: Result<Seq<(Seq<char>, Json)>, Error>,
    version: RoomVersion,
) -> Result<Pdu, Error> {
    match p.content {
        Json::Object(c) => if !p.content.canonical() {
            Err(Error::BadDatabase(Reason::InvalidStoredContent))
        } else {
            match redacted_content(c, version, p.kind) {
                None => Err(Error::Redaction(Reason::RedactionFailed)),
                Some(kept) => match reason {
                    Err(_) => Err(Error::BadDatabase(Reason::NoCanonicalJson)),
                    Ok(because) => Ok(
                        Pdu {
                            content: Json::Object(kept),
                            unsigned: Some(seq![("redacted_because"@, Json::Object(because))]),
                            ..p
                        },
                    ),
                },
            }
        },
        _ => Err(Error::BadDatabase(Reason::InvalidStoredContent)),
    }
}

/// A list of identifiers as a JSON array of strings.
pub open spec fn id_array(ids: Seq<Seq<char>>) -> Json {
    Json::Array(ids.map_values(|s: Seq<char>| Json::String(s)))
}

/// The members that every event's JSON form has, up to `content`.
pub open spec fn pdu_head(p: Pdu) -> Seq<(Seq<char>, Json)> {
    seq![
        ("event_id"@, Json::String(p.event_id)),
        ("room_id"@, Json::String(p.room_id)),
        ("sender"@, Json::String(p.sender)),
        ("origin_server_ts"@, Json::Integer(p.origin_server_ts as int)),
        ("type"@, Json::String(p.kind)),
        ("content"@, p.content),
        ("prev_events"@, id_array(p.prev_events)),
        ("depth"@, Json::Integer(p.depth as int)),
        ("auth_events"@, id_array(p.auth_events)),
        ("hashes"@, Json::Object(seq![("sha256"@, Json::String(p.sha256))])),
    ]
}

/// `m` with the member `key` added at the end where `val` is present.
pub open spec fn push_opt(m: Seq<(Seq<char>, Json)>, key: Seq<char>, val: Option<Json>) -> Seq<
    (Seq<char>, Json),
> {
    match val {
        Some(v) => m.push((key, v)),
        None => m,
    }
}

/// The string value of an optional text.
pub open spec fn opt_string(s: Option<Seq<char>>) -> Option<Json> {
    match s {
        Some(s) => Some(Json::String(s)),
        None => None,
    }
}

/// The object value of optional members.
pub open spec fn opt_object(o: Option<Seq<(Seq<char>, Json)>>) -> Option<Json> {
    match o {
        Some(o) => Some(Json::Object(o)),
        None => None,
    }
}

/// The JSON form of an event: the members that every event has, followed by
/// those of `origin`, `state_key`, `redacts`, `unsigned` and `signatures`
/// that the event has.
pub open spec fn pdu_object(p: Pdu) -> Seq<(Seq<char>, Json)> {
    push_opt(
        push_opt(
            push_opt(
                push_opt(
                    push_opt(pdu_head(p), "origin"@, opt_string(p.origin)),
                    "state_key"@,
                    opt_string(p.state_key),
                ),
                "redacts"@,
                opt_string(p.redacts),
            ),
            "unsigned"@,
            opt_object(p.unsigned),
        ),
        "signatures"@,
        opt_object(p.signatures),
    )
}

/// A list of identifiers as a JSON array of strings.
pub fn ids_to_json(ids: &Vec<String>) -> (r: JsonValue)
    ensures
        r.model() == id_array(texts(ids@)),
{
    let mut out: Vec<JsonValue> = Vec::new();
    let mut i: usize = 0;
    while i < ids.len()
        invariant
            i <= ids@.len(),
            out@.len() == i,
            forall|j: int| 0 <= j < i ==> out@[j].model() == Json::String(ids@[j]@),
        decreases ids@.len() - i,
    {
        out.push(JsonValue::String(ids[i].clone()));
        i += 1;
    }
    let r = JsonValue::Array(out);
    assert(crate::json::elements(out@) =~= texts(ids@).map_values(|s: Seq<char>| Json::String(s)));
    r
}

/// The JSON form of an event where it has a canonical one: that is, where
/// both numbers fit a canonical integer and the form as a whole is canonical.
pub open spec fn canonical_form(p: Pdu) -> Result<Seq<(Seq<char>, Json)>, Error> {
    if p.origin_server_ts <= MAX_SAFE_INT && p.depth <= MAX_SAFE_INT && Json::Object(
        pdu_object(p),
    ).canonical() {
        Ok(pdu_object(p))
    } else {
        Err(Error::BadDatabase(Reason::NoCanonicalJson))
    }
}

impl PduEvent {
    /// What `to_canonical_object` returns.
    pub open spec fn to_canonical_object_spec(&self) -> Result<Seq<(Seq<char>, Json)>, Error> {
        canonical_form(self.model())
    }

    /// The JSON form of the event, where it has a canonical one: that is,
    /// where both numbers fit a canonical integer and the form as a whole is
    /// canonical.
    pub fn to_canonical_object(&self) -> (r: Result<JsonObject, Error>)
        ensures
            match r {
                Ok(o) => self.to_canonical_object_spec() == Ok::<Seq<(Seq<char>, Json)>, Error>(
                    members(o@),
                ) && Json::Object(members(o@)).canonical(),
                Err(e) => self.to_canonical_object_spec() == Err::<Seq<(Seq<char>, Json)>, Error>(e),
            },
    {
        if self.origin_server_ts > MAX_SAFE_INT as u64 || self.depth > MAX_SAFE_INT as u64 {
            return Err(Error::BadDatabase(Reason::NoCanonicalJson));
        }
        let mut o: JsonObject = Vec::new();
        o.push(("event_id".to_owned(), JsonValue::String(self.event_id.clone())));
        o.push(("room_id".to_owned(), JsonValue::String(self.room_id.clone())));
        o.push(("sender".to_owned(), JsonValue::String(self.sender.clone())));
        o.push(("origin_server_ts".to_owned(), JsonValue::Integer(self.origin_server_ts as i64)));
        o.push(("type".to_owned(), JsonValue::String(self.kind.clone())));
        o.push(("content".to_owned(), self.content.duplicate()));
        o.push(("prev_events".to_owned(), ids_to_json(&self.prev_events)));
        o.push(("depth".to_owned(), JsonValue::Integer(self.depth as i64)));
        o.push(("auth_events".to_owned(), ids_to_json(&self.auth_events)));
        let mut hashes: JsonObject = Vec::new();
        hashes.push(("sha256".to_owned(), JsonValue::String(self.hashes.sha256.clone())));
        assert(members(hashes@) =~= seq![("sha256"@, Json::String(self.hashes.sha256@))]);
        o.push(("hashes".to_owned(), JsonValue::Object(hashes)));
        assert(members(o@) =~= pdu_head(self.model()));
        let ghost m0 = members(o@);
        match &self.origin {
            Some(s) => {
                o.push(("origin".to_owned(), JsonValue::String(s.clone())));
            },
            None => {},
        }
        assert(members(o@) =~= push_opt(m0, "origin"@, opt_string(opt_text(self.origin))));
        let ghost m1 = members(o@);
        match &self.state_key {
            Some(s) => {
                o.push(("state_key".to_owned(), JsonValue::String(s.clone())));
            },
            None => {},
        }
        assert(members(o@) =~= push_opt(m1, "state_key"@, opt_string(opt_text(self.state_key))));
        let ghost m2 = members(o@);
        match &self.redacts {
            Some(s) => {
                o.push(("redacts".to_owned(), JsonValue::String(s.clone())));
            },
            None => {},
        }
        assert(members(o@) =~= push_opt(m2, "redacts"@, opt_string(opt_text(self.redacts))));
        let ghost m3 = members(o@);
        match &self.unsigned {
            Some(u) => {
                o.push(("unsigned".to_owned(), JsonValue::Object(duplicate_object(u))));
            },
            None => {},
        }
        assert(members(o@) =~= push_opt(m3, "unsigned"@, opt_object(opt_members(self.unsigned))));
        let ghost m4 = members(o@);
        match &self.signatures {
            Some(u) => {
                o.push(("signatures".to_owned(), JsonValue::Object(duplicate_object(u))));
            },
            None => {},
        }
        assert(members(o@) =~= push_opt(
            m4,
            "signatures"@,
            opt_object(opt_members(self.signatures)),
        ));
        if !object_is_canonical(&o) {
            return Err(Error::BadDatabase(Reason::NoCanonicalJson));
        }
        Ok(o)
    }
}

} // verus!
