//! What the protocol library computes for this one: signatures and hashes,
//! redaction, the validity of identifiers, and the reading of event contents.
//!
//! Each function here hands its arguments to the protocol library and gives
//! back what that library returned. Nothing is proved of them; their
//! contracts name the results so that callers can speak of them. They take
//! canonical values only, so that the conversion to the protocol library's
//! form changes nothing.

use crate::json::{members, Json, JsonObject, JsonValue};
use crate::pdu::RoomVersion;
use ruma::events::room::create::RoomCreateEventContent;
use ruma::events::room::member::{MembershipState, RoomMemberEventContent};
use ruma::events::room::power_levels::RoomPowerLevelsEventContent;
use ruma::events::room::redaction::RoomRedactionEventContent;
use ruma::room_version_rules::RoomVersionRules;
use ruma::signatures::Ed25519KeyPair;
use ruma::CanonicalJsonValue;
use std::collections::BTreeMap;
use vstd::prelude::*;

verus! {

/// A JSON value of the protocol library.
#[verifier::external_type_specification]
#[verifier::external_body]
pub struct ExCanonicalJsonValue(ruma::CanonicalJsonValue);

/// The rule set of a room version, as the protocol library holds it.
#[verifier::external_type_specification]
#[verifier::external_body]
pub struct ExRoomVersionRules(ruma::room_version_rules::RoomVersionRules);

/// A signing key pair: the version label of the key and its PKCS#8 document.
#[derive(Debug)]
pub struct Keypair {
    pub version: String,
    pub der: Vec<u8>,
}

/// Why an event could not be hashed and signed.
#[derive(Clone, Copy, Debug, PartialEq, Eq, Hash, Structural)]
pub enum SignFailure {
    /// The event is larger than an event may be.
    TooLarge,
    /// Anything else: a key that cannot be read, a member of the wrong shape.
    Other,
}

/// The membership that a membership event declares.
#[derive(Clone, Copy, Debug, PartialEq, Eq, Hash, Structural)]
pub enum Membership {
    Ban,
    Invite,
    Join,
    Knock,
    Leave,
    Other,
}

/// How an event relates to another one.
#[derive(Debug)]
pub enum Relation {
    /// A reply to the named event.
    Reply(String),
    /// A message in the thread rooted at the named event.
    Thread(String),
    /// Any other relation.
    Other,
}

/// The mathematical value of a `Relation`.
pub enum RelationModel {
    Reply(Seq<char>),
    Thread(Seq<char>),
    Other,
}

impl Relation {
    /// The mathematical value of the relation.
    pub open spec fn model(&self) -> RelationModel {
        match self {
            Relation::Reply(e) => RelationModel::Reply(e@),
            Relation::Thread(e) => RelationModel::Thread(e@),
            Relation::Other => RelationModel::Other,
        }
    }
}

/// The power levels that the backfill policy reads: the level of each listed
/// user and the level of everyone else.
#[derive(Debug)]
pub struct PowerLevels {
    pub users: Vec<(String, i64)>,
    pub users_default: i64,
}

/// The listed users of power levels with their levels.
pub open spec fn level_entries(users: Seq<(String, i64)>) -> Seq<(Seq<char>, i64)> {
    Seq::new(users.len(), |i: int| (users[i].0@, users[i].1))
}

/// The event as `hash_and_sign_event` leaves it for the given server name,
/// key, event and room version, or why it failed.
pub uninterp spec fn signed_event(
    server_name: Seq<char>,
    key_version: Seq<char>,
    key_der: Seq<u8>,
    event: Seq<(Seq<char>, Json)>,
    version: RoomVersion,
) -> Result<Seq<(Seq<char>, Json)>, SignFailure>;

/// The reference hash of an event under a room version, where it has one.
pub uninterp spec fn event_reference_hash(event: Seq<(Seq<char>, Json)>, version: RoomVersion) -> Option<
    Seq<char>,
>;

/// The content that redaction leaves of an event content of the given type
/// under a room version, where redaction succeeds.
pub uninterp spec fn redacted_content(
    content: Seq<(Seq<char>, Json)>,
    version: RoomVersion,
    kind: Seq<char>,
) -> Option<Seq<(Seq<char>, Json)>>;

/// Whether a version label and a PKCS#8 document make a signing key pair.
pub uninterp spec fn keypair_valid(version: Seq<char>, der: Seq<u8>) -> bool;

/// Whether a text is a user identifier.
pub uninterp spec fn user_id_valid(id: Seq<char>) -> bool;

/// Whether a text is an event identifier.
pub uninterp spec fn event_id_valid(id: Seq<char>) -> bool;

/// The user identifier that a text stands for on a server: the text itself
/// where it is a user identifier, the user of that local part on the server
/// where it is a local part, and nothing otherwise.
pub uninterp spec fn user_on_server(name: Seq<char>, server_name: Seq<char>) -> Option<Seq<char>>;

/// The membership that a membership content declares, where the content is
/// one.
pub uninterp spec fn member_state(content: Json) -> Option<Membership>;

/// The target that a redaction content names (none where it names none),
/// where the content is a redaction content.
pub uninterp spec fn redaction_target(content: Json) -> Option<Option<Seq<char>>>;

/// The text of the room version that a creation content declares, where the
/// content is one.
pub uninterp spec fn created_version(content: Json) -> Option<Seq<char>>;

/// The listed users with their levels, and the level of everyone else, that
/// a power-levels content declares, where the content is one.
pub uninterp spec fn declared_levels(content: Json) -> Option<(Seq<(Seq<char>, i64)>, i64)>;

/// The relation that a content declares under `m.relates_to`, where it
/// declares one.
pub uninterp spec fn declared_relation(content: Json) -> Option<RelationModel>;

/// Converts a value to the protocol library's form, member by member; an
/// integer outside the canonical range becomes the nearest one inside.
#[verifier::external_body]
fn to_outside(v: &JsonValue) -> CanonicalJsonValue {
    match v {
        JsonValue::Null => CanonicalJsonValue::Null,
        JsonValue::Bool(b) => CanonicalJsonValue::Bool(*b),
        JsonValue::Integer(i) => CanonicalJsonValue::Integer(ruma::Int::new_saturating(*i)),
        JsonValue::String(s) => CanonicalJsonValue::String(s.clone()),
        JsonValue::Array(a) => CanonicalJsonValue::Array(a.iter().map(to_outside).collect()),
        JsonValue::Object(o) => CanonicalJsonValue::Object(object_to_outside(o)),
    }
}

/// Converts an object to the protocol library's form, member by member.
#[verifier::external_body]
fn object_to_outside(o: &JsonObject) -> BTreeMap<String, CanonicalJsonValue> {
    o.iter().map(|e| (e.0.clone(), to_outside(&e.1))).collect()
}

/// Converts a value from the protocol library's form, member by member.
#[verifier::external_body]
fn from_outside(v: &CanonicalJsonValue) -> JsonValue {
    match v {
        CanonicalJsonValue::Null => JsonValue::Null,
        CanonicalJsonValue::Bool(b) => JsonValue::Bool(*b),
        CanonicalJsonValue::Integer(i) => JsonValue::Integer(i64::from(*i)),
        CanonicalJsonValue::String(s) => JsonValue::String(s.clone()),
        CanonicalJsonValue::Array(a) => JsonValue::Array(a.iter().map(from_outside).collect()),
        CanonicalJsonValue::Object(o) => JsonValue::Object(object_from_outside(o)),
    }
}

/// Converts an object from the protocol library's form, member by member,
/// in the order of its keys.
#[verifier::external_body]
fn object_from_outside(o: &BTreeMap<String, CanonicalJsonValue>) -> JsonObject {
    o.iter().map(|e| (e.0.clone(), from_outside(e.1))).collect()
}

/// The protocol library's rule set for a supported room version: the
/// constant of `RoomVersionRules` of the same number.
#[verifier::external_body]
fn rules_of(version: RoomVersion) -> RoomVersionRules
    requires
        version.is_supported(),
{
    match version {
        RoomVersion::V1 => RoomVersionRules::V1,
        RoomVersion::V2 => RoomVersionRules::V2,
        RoomVersion::V3 => RoomVersionRules::V3,
        RoomVersion::V4 => RoomVersionRules::V4,
        RoomVersion::V5 => RoomVersionRules::V5,
        RoomVersion::V6 => RoomVersionRules::V6,
        RoomVersion::V7 => RoomVersionRules::V7,
        RoomVersion::V8 => RoomVersionRules::V8,
        RoomVersion::V9 => RoomVersionRules::V9,
        RoomVersion::V10 => RoomVersionRules::V10,
        RoomVersion::V11 | RoomVersion::Other => RoomVersionRules::V11,
    }
}

/// Calls `ruma::signatures::hash_and_sign_event` with the key pair that
/// `Ed25519KeyPair::from_der` reads. The result is the event with its
/// `hashes` and `signatures` members as that call left them, as a function
/// of the arguments; it is canonical, since the protocol library's objects
/// hold each key once and its integers lie within the canonical range.
#[verifier::external_body]
pub(crate) fn hash_and_sign(
    server_name: &String,
    keypair: &Keypair,
    event: &JsonObject,
    version: RoomVersion,
) -> (r: Result<JsonObject, SignFailure>)
    requires
        version.is_supported(),
        Json::Object(members(event@)).canonical(),
    ensures
        match r {
            Ok(o) => signed_event(server_name@, keypair.version@, keypair.der@, members(event@), version)
                == Ok::<Seq<(Seq<char>, Json)>, SignFailure>(members(o@)) && Json::Object(
                members(o@),
            ).canonical(),
            Err(e) => signed_event(server_name@, keypair.version@, keypair.der@, members(event@), version)
                == Err::<Seq<(Seq<char>, Json)>, SignFailure>(e),
        },
{
    let Ok(key) = Ed25519KeyPair::from_der(&keypair.der, keypair.version.clone())
    else {
        return Err(SignFailure::Other);
    };
    let mut object = object_to_outside(event);
    let rules = rules_of(version).redaction;
    match ruma::signatures::hash_and_sign_event(server_name, &key, &mut object, &rules) {
        Ok(()) => Ok(object_from_outside(&object)),
        Err(ruma::signatures::Error::PduSize) => Err(SignFailure::TooLarge),
        Err(_) => Err(SignFailure::Other),
    }
}

/// Calls `ruma::signatures::reference_hash`. The result is the hash in
/// base64, as a function of the arguments, or nothing where the call failed.
#[verifier::external_body]
pub(crate) fn reference_hash(event: &JsonObject, version: RoomVersion) -> (r: Option<String>)
    requires
        version.is_supported(),
        Json::Object(members(event@)).canonical(),
    ensures
        match r {
            Some(h) => event_reference_hash(members(event@), version) == Some(h@),
            None => event_reference_hash(members(event@), version).is_none(),
        },
{
    ruma::signatures::reference_hash(&object_to_outside(event), &rules_of(version)).ok()
}

/// Calls `ruma::canonical_json::redact_content_in_place`. The result is the
/// content with the members that redaction keeps, as a function of the
/// arguments, or nothing where the call failed. Redaction only drops
/// members, each by its key, so redacting a redacted content once more
/// gives the same content again; the result is canonical.
#[verifier::external_body]
pub(crate) fn redact_content(content: &JsonObject, version: RoomVersion, kind: &String) -> (r:
    Option<JsonObject>)
    requires
        version.is_supported(),
        Json::Object(members(content@)).canonical(),
    ensures
        match r {
            Some(c) => {
                &&& redacted_content(members(content@), version, kind@) == Some(members(c@))
                &&& redacted_content(members(c@), version, kind@) == Some(members(c@))
                &&& Json::Object(members(c@)).canonical()
            },
            None => redacted_content(members(content@), version, kind@).is_none(),
        },
{
    let mut object = object_to_outside(content);
    let rules = rules_of(version).redaction;
    match ruma::canonical_json::redact_content_in_place(&mut object, &rules, kind) {
        Ok(()) => Some(object_from_outside(&object)),
        Err(_) => None,
    }
}

/// Calls `Ed25519KeyPair::from_der` and says whether it
/// read a key pair.
#[verifier::external_body]
pub(crate) fn is_keypair(keypair: &Keypair) -> (b: bool)
    ensures
        b == keypair_valid(keypair.version@, keypair.der@),
{
    Ed25519KeyPair::from_der(&keypair.der, keypair.version.clone()).is_ok()
}

/// Parses a text as a `ruma::UserId` and says whether that succeeded.
#[verifier::external_body]
pub(crate) fn is_user_id(id: &String) -> (b: bool)
    ensures
        b == user_id_valid(id@),
{
    <&ruma::UserId>::try_from(id.as_str()).is_ok()
}

/// Calls `ruma::UserId::parse_with_server_name` with the server name that
/// `ruma::ServerName::parse` reads, and gives the user identifier as text;
/// nothing where either of the two fails.
#[verifier::external_body]
pub(crate) fn complete_user_id(name: &String, server_name: &String) -> (r: Option<String>)
    ensures
        match r {
            Some(id) => user_on_server(name@, server_name@) == Some(id@),
            None => user_on_server(name@, server_name@).is_none(),
        },
{
    let server = <&ruma::ServerName>::try_from(server_name.as_str()).ok()?;
    let id = ruma::UserId::parse_with_server_name(name.as_str(), server).ok()?;
    Some(String::from(id))
}

/// Parses a text as a `ruma::EventId` and says whether that succeeded.
#[verifier::external_body]
pub(crate) fn is_event_id(id: &String) -> (b: bool)
    ensures
        b == event_id_valid(id@),
{
    <&ruma::EventId>::try_from(id.as_str()).is_ok()
}

/// Reads a content as a `RoomMemberEventContent` and gives its membership.
#[verifier::external_body]
pub(crate) fn membership_of(content: &JsonValue) -> (r: Option<Membership>)
    requires
        content.model().canonical(),
    ensures
        r == member_state(content.model()),
{
    let value = serde_json::Value::from(to_outside(content));
    let read = serde_json::from_value::<RoomMemberEventContent>(value);
    match read.ok()?.membership {
        MembershipState::Ban => Some(Membership::Ban),
        MembershipState::Invite => Some(Membership::Invite),
        MembershipState::Join => Some(Membership::Join),
        MembershipState::Knock => Some(Membership::Knock),
        MembershipState::Leave => Some(Membership::Leave),
        _ => Some(Membership::Other),
    }
}

/// Reads a content as a `RoomRedactionEventContent` and gives the event
/// that it names as its target.
#[verifier::external_body]
pub(crate) fn redacts_of(content: &JsonValue) -> (r: Option<Option<String>>)
    requires
        content.model().canonical(),
    ensures
        match r {
            Some(Some(t)) => redaction_target(content.model()) == Some(Some(t@)),
            Some(None) => redaction_target(content.model()) == Some(None::<Seq<char>>),
            None => redaction_target(content.model()).is_none(),
        },
{
    let value = serde_json::Value::from(to_outside(content));
    let read = serde_json::from_value::<RoomRedactionEventContent>(value);
    Some(read.ok()?.redacts.map(String::from))
}

/// Reads a content as a `RoomCreateEventContent` and gives the text of its
/// room version.
#[verifier::external_body]
pub(crate) fn created_version_of(content: &JsonValue) -> (r: Option<String>)
    requires
        content.model().canonical(),
    ensures
        match r {
            Some(v) => created_version(content.model()) == Some(v@),
            None => created_version(content.model()).is_none(),
        },
{
    let value = serde_json::Value::from(to_outside(content));
    let read = serde_json::from_value::<RoomCreateEventContent>(value);
    Some(String::from(read.ok()?.room_version.as_str()))
}

/// Reads a content as a `RoomPowerLevelsEventContent` and gives the levels
/// of its listed users, in the order of their identifiers, and the level of
/// everyone else.
#[verifier::external_body]
pub(crate) fn levels_of(content: &JsonValue) -> (r: Option<PowerLevels>)
    requires
        content.model().canonical(),
    ensures
        match r {
            Some(p) => declared_levels(content.model()) == Some(
                (level_entries(p.users@), p.users_default),
            ),
            None => declared_levels(content.model()).is_none(),
        },
{
    let value = serde_json::Value::from(to_outside(content));
    let read = serde_json::from_value::<RoomPowerLevelsEventContent>(value).ok()?;
    let users = read.users.iter().map(|e| (String::from(e.0.as_str()), i64::from(*e.1))).collect();
    Some(PowerLevels { users, users_default: i64::from(read.users_default) })
}

/// Reads the member `m.relates_to` of a content as a
/// `ruma::events::room::encrypted::Relation`.
#[verifier::external_body]
pub(crate) fn relation_of(content: &JsonValue) -> (r: Option<Relation>)
    requires
        content.model().canonical(),
    ensures
        match r {
            Some(rel) => declared_relation(content.model()) == Some(rel.model()),
            None => declared_relation(content.model()).is_none(),
        },
{
    let value = serde_json::Value::from(to_outside(content));
    let inner = value.get("m.relates_to")?.clone();
    match serde_json::from_value::<ruma::events::room::encrypted::Relation>(inner).ok()? {
        ruma::events::room::encrypted::Relation::Reply { in_reply_to } => Some(
            Relation::Reply(String::from(in_reply_to.event_id)),
        ),
        ruma::events::room::encrypted::Relation::Thread(t) => Some(
            Relation::Thread(String::from(t.event_id)),
        ),
        _ => Some(Relation::Other),
    }
}

} // verus!
