//! What the pipelines read in the content of an event.

use crate::json::{lookup, object_get, Json, JsonValue};
use crate::protocol::{
    created_version, created_version_of, declared_levels, declared_relation, event_id_valid,
    is_event_id, level_entries, levels_of, member_state, membership_of, redaction_target,
    redacts_of, relation_of, Membership, PowerLevels, Relation, RelationModel,
};
use vstd::prelude::*;

verus! {

/// The text body of a content: the string under `body`; none where the
/// member is absent or null. The outer level says whether the content could
/// be read at all: it must be an object whose `body`, if any, is a string.
pub open spec fn body_of(content: Json) -> Option<Option<Seq<char>>> {
    match content {
        Json::Object(m) => match lookup(m, "body"@) {
            None => Some(None),
            Some(Json::Null) => Some(None),
            Some(Json::String(s)) => Some(Some(s)),
            Some(_) => None,
        },
        _ => None,
    }
}

/// The text body of a content.
pub fn extract_body(content: &JsonValue) -> (r: Option<Option<String>>)
    ensures
        match r {
            Some(Some(b)) => body_of(content.model()) == Some(Some(b@)),
            Some(None) => body_of(content.model()) == Some(None::<Seq<char>>),
            None => body_of(content.model()).is_none(),
        },
{
    match content {
        JsonValue::Object(o) => {
            let key = "body".to_owned();
            match object_get(o, &key) {
                None => Some(None),
                Some(JsonValue::Null) => Some(None),
                Some(JsonValue::String(s)) => Some(Some(s.clone())),
                Some(_) => None,
            }
        },
        _ => None,
    }
}

/// The event that a content relates to: the valid event identifier under
/// `event_id` in the object under `m.relates_to`, where there is one.
pub open spec fn related_event(content: Json) -> Option<Seq<char>> {
    match content.member("m.relates_to"@) {
        Some(Json::Object(r)) => match lookup(r, "event_id"@) {
            Some(Json::String(e)) => if event_id_valid(e) {
                Some(e)
            } else {
                None
            },
            _ => None,
        },
        _ => None,
    }
}

/// The event that a content relates to.
pub fn extract_related_event(content: &JsonValue) -> (r: Option<String>)
    ensures
        match r {
            Some(e) => related_event(content.model()) == Some(e@),
            None => related_event(content.model()).is_none(),
        },
{
    match content {
        JsonValue::Object(o) => {
            let outer = "m.relates_to".to_owned();
            match object_get(o, &outer) {
                Some(JsonValue::Object(r)) => {
                    let inner = "event_id".to_owned();
                    match object_get(r, &inner) {
                        Some(JsonValue::String(e)) => {
                            if is_event_id(e) {
                                Some(e.clone())
                            } else {
                                None
                            }
                        },
                        _ => None,
                    }
                },
                _ => None,
            }
        },
        _ => None,
    }
}


/// The membership that a content declares. A content that is not canonical
/// cannot be read.
pub open spec fn membership_in(content: Json) -> Option<Membership> {
    if content.canonical() {
        member_state(content)
    } else {
        None
    }
}

/// The membership that a content declares.
pub fn read_membership(content: &JsonValue) -> (r: Option<Membership>)
    ensures
        r == membership_in(content.model()),
{
    if content.is_canonical() {
        membership_of(content)
    } else {
        None
    }
}

/// The target that a redaction content names, none where it names none. A
/// content that is not canonical cannot be read.
pub open spec fn redacts_in(content: Json) -> Option<Option<Seq<char>>> {
    if content.canonical() {
        redaction_target(content)
    } else {
        None
    }
}

/// The target that a redaction content names.
pub fn read_redacts(content: &JsonValue) -> (r: Option<Option<String>>)
    ensures
        match r {
            Some(Some(t)) => redacts_in(content.model()) == Some(Some(t@)),
            Some(None) => redacts_in(content.model()) == Some(None::<Seq<char>>),
            None => redacts_in(content.model()).is_none(),
        },
{
    if content.is_canonical() {
        redacts_of(content)
    } else {
        None
    }
}

/// The text of the room version that a creation content declares. A
/// content that is not canonical cannot be read.
pub open spec fn version_in(content: Json) -> Option<Seq<char>> {
    if content.canonical() {
        created_version(content)
    } else {
        None
    }
}

/// The text of the room version that a creation content declares.
pub fn read_version(content: &JsonValue) -> (r: Option<String>)
    ensures
        match r {
            Some(v) => version_in(content.model()) == Some(v@),
            None => version_in(content.model()).is_none(),
        },
{
    if content.is_canonical() {
        created_version_of(content)
    } else {
        None
    }
}

/// The levels that a power-levels content declares: those of the listed
/// users and that of everyone else. A content that is not canonical cannot
/// be read.
pub open spec fn levels_declared(content: Json) -> Option<(Seq<(Seq<char>, i64)>, i64)> {
    if content.canonical() {
        declared_levels(content)
    } else {
        None
    }
}

/// The levels that a power-levels content declares.
pub fn read_levels(content: &JsonValue) -> (r: Option<PowerLevels>)
    ensures
        match r {
            Some(p) => levels_declared(content.model()) == Some(
                (level_entries(p.users@), p.users_default),
            ),
            None => levels_declared(content.model()).is_none(),
        },
{
    if content.is_canonical() {
        levels_of(content)
    } else {
        None
    }
}

/// The relation that a content declares under `m.relates_to`. A content
/// that is not canonical cannot be read.
pub open spec fn relation_in(content: Json) -> Option<RelationModel> {
    if content.canonical() {
        declared_relation(content)
    } else {
        None
    }
}

/// The relation that a content declares under `m.relates_to`.
pub fn read_relation(content: &JsonValue) -> (r: Option<Relation>)
    ensures
        match r {
            Some(rel) => relation_in(content.model()) == Some(rel.model()),
            None => relation_in(content.model()).is_none(),
        },
{
    if content.is_canonical() {
        relation_of(content)
    } else {
        None
    }
}

} // verus!
