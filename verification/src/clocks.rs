//! The clock record, the inputs of the store operations, the error
//! taxonomy, and the codec between the typed record and its stored
//! attribute-map form.

use vstd::prelude::*;

use crate::attr::{AttrMap, AttrVal, AttrValV};
use crate::timestamp::{is_rfc3339_text, Timestamp};
use crate::uid::{is_uuid_text, Uid};

verus! {

/// Input of `get_clocks`: the owner whose records are listed.
#[derive(Debug)]
pub struct GetClocksInput(pub Uid);

/// Input of `create_clock`.
#[derive(Debug)]
pub struct CreateClockInput {
    pub identity_pool_user_id: Uid,
    pub name: String,
}

/// Update instruction for the optional clock-in time: leave it, clear it,
/// or set it — three distinct shapes, so that clearing stays representable.
#[derive(Debug)]
pub enum ClockInTimeUpdate {
    NoChange,
    Clear,
    SetTo(Timestamp),
}

/// The two supported update shapes: a partial field patch, or a full-record
/// replacement supplied by a caller that accepts last-writer-wins.
#[derive(Debug)]
pub enum EditClockInputStrategy {
    Fields {
        identity_pool_user_id: Uid,
        name: Option<String>,
        active: Option<bool>,
        clock_in_time: ClockInTimeUpdate,
    },
    Publish(ClockSchema),
}

/// Input of `edit_clock`: the record to touch and how.
#[derive(Debug)]
pub struct EditClockInput {
    pub uuid: Uid,
    pub update: EditClockInputStrategy,
}

/// Input of `validate_user_claims_to_clock`.
#[derive(Debug)]
pub struct ValidateUserClaimsToClockInput {
    pub identity_pool_user_id: Uid,
    pub uuid: Uid,
}

/// Input of `delete_clock`.
#[derive(Debug)]
pub struct DeleteClockInput {
    pub identity_pool_user_id: Uid,
    pub uuid: Uid,
}

/// Every way a store operation can fail.
///
/// `BackendUnavailable` classifies any transport failure of the backing
/// store, including the shared client having been torn down; it is never a
/// crash. `ParseMalformedQuery` carries the offending field name and the
/// full raw row.
#[derive(Debug, PartialEq, Eq)]
pub enum ClockError {
    BackendUnavailable,
    ParseMalformedQuery(String, AttrMap),
    ParseTimestamp,
    ParseUuid,
    ClockNotFound(Uid, Uid),
}

/// One time-tracking record, as the typed side of the codec sees it.
#[derive(Debug, PartialEq, Eq)]
pub struct ClockSchema {
    /// Partition key.
    pub identity_pool_user_id: Uid,
    /// Sort key.
    pub uuid: Uid,
    pub name: String,
    pub last_edit: Timestamp,
    pub active: bool,
    pub clock_in_time: Option<Timestamp>,
}

/// Mathematical value of a clock record.
pub struct ClockSchemaV {
    pub identity_pool_user_id: Seq<char>,
    pub uuid: Seq<char>,
    pub name: Seq<char>,
    pub last_edit: Seq<char>,
    pub active: bool,
    pub clock_in_time: Option<Seq<char>>,
}

impl View for ClockSchema {
    type V = ClockSchemaV;

    open spec fn view(&self) -> ClockSchemaV {
        ClockSchemaV {
            identity_pool_user_id: self.identity_pool_user_id@,
            uuid: self.uuid@,
            name: self.name@,
            last_edit: self.last_edit@,
            active: self.active,
            clock_in_time: match self.clock_in_time {
                Option::None => Option::None,
                Option::Some(t) => Option::Some(t@),
            },
        }
    }
}

/// Validity of a record value: identifiers and timestamps in their
/// canonical shapes.
pub open spec fn wf_clock_v(r: ClockSchemaV) -> bool {
    &&& is_uuid_text(r.identity_pool_user_id)
    &&& is_uuid_text(r.uuid)
    &&& is_rfc3339_text(r.last_edit)
    &&& (r.clock_in_time matches Option::Some(t) ==> is_rfc3339_text(t))
}

/// True when the attribute holds a string value.
pub open spec fn attr_is_s(v: AttrValV) -> bool {
    v matches AttrValV::S(_)
}

/// The string an attribute holds, when it holds one.
pub open spec fn attr_str(v: AttrValV) -> Seq<char> {
    match v {
        AttrValV::S(s) => s,
        _ => Seq::empty(),
    }
}

/// True when the attribute holds a boolean value.
pub open spec fn attr_is_bool(v: AttrValV) -> bool {
    v matches AttrValV::Bool(_)
}

/// The boolean an attribute holds, when it holds one.
pub open spec fn attr_bool(v: AttrValV) -> bool {
    match v {
        AttrValV::Bool(b) => b,
        _ => false,
    }
}

/// True when the attribute holds the explicit null marker.
pub open spec fn attr_is_null(v: AttrValV) -> bool {
    v matches AttrValV::Null(_)
}

/// How a record is written out: identifiers and timestamps as their
/// canonical text, the absent clock-in time as an explicit null marker so
/// that a cleared field stays distinct from a missing one.
pub open spec fn spec_encode(r: ClockSchemaV) -> Map<Seq<char>, AttrValV> {
    Map::empty().insert("identity_pool_user_id"@, AttrValV::S(r.identity_pool_user_id)).insert(
        "uuid"@,
        AttrValV::S(r.uuid),
    ).insert("name"@, AttrValV::S(r.name)).insert("last_edit"@, AttrValV::S(r.last_edit)).insert(
        "active"@,
        AttrValV::Bool(r.active),
    ).insert(
        "clock_in_time"@,
        match r.clock_in_time {
            Option::None => AttrValV::Null(true),
            Option::Some(t) => AttrValV::S(t),
        },
    )
}

/// The faults decoding can find, in specification terms; the first fault in
/// field order wins.
pub enum DecodeFault {
    MissingOrWrongType(Seq<char>),
    BadUuid,
    BadTimestamp,
}

/// How a raw row is read back: each field must be present with the right
/// value type, identifiers and timestamps must have their canonical shapes,
/// and the clock-in time reads as absent from the null marker or from the
/// empty string.
pub open spec fn spec_decode(m: Map<Seq<char>, AttrValV>) -> Result<ClockSchemaV, DecodeFault> {
    if !(m.contains_key("identity_pool_user_id"@) && attr_is_s(m["identity_pool_user_id"@])) {
        Result::Err(DecodeFault::MissingOrWrongType("identity_pool_user_id"@))
    } else if !is_uuid_text(attr_str(m["identity_pool_user_id"@])) {
        Result::Err(DecodeFault::BadUuid)
    } else if !(m.contains_key("uuid"@) && attr_is_s(m["uuid"@])) {
        Result::Err(DecodeFault::MissingOrWrongType("uuid"@))
    } else if !is_uuid_text(attr_str(m["uuid"@])) {
        Result::Err(DecodeFault::BadUuid)
    } else if !(m.contains_key("name"@) && attr_is_s(m["name"@])) {
        Result::Err(DecodeFault::MissingOrWrongType("name"@))
    } else if !(m.contains_key("last_edit"@) && attr_is_s(m["last_edit"@])) {
        Result::Err(DecodeFault::MissingOrWrongType("last_edit"@))
    } else if !is_rfc3339_text(attr_str(m["last_edit"@])) {
        Result::Err(DecodeFault::BadTimestamp)
    } else if !(m.contains_key("active"@) && attr_is_bool(m["active"@])) {
        Result::Err(DecodeFault::MissingOrWrongType("active"@))
    } else if !(m.contains_key("clock_in_time"@) && (attr_is_null(m["clock_in_time"@]) || attr_is_s(
        m["clock_in_time"@],
    ))) {
        Result::Err(DecodeFault::MissingOrWrongType("clock_in_time"@))
    } else if attr_is_s(m["clock_in_time"@]) && attr_str(m["clock_in_time"@]).len() != 0
        && !is_rfc3339_text(attr_str(m["clock_in_time"@])) {
        Result::Err(DecodeFault::BadTimestamp)
    } else {
        Result::Ok(
            ClockSchemaV {
                identity_pool_user_id: attr_str(m["identity_pool_user_id"@]),
                uuid: attr_str(m["uuid"@]),
                name: attr_str(m["name"@]),
                last_edit: attr_str(m["last_edit"@]),
                active: attr_bool(m["active"@]),
                clock_in_time: if attr_is_null(m["clock_in_time"@]) || attr_str(
                    m["clock_in_time"@],
                ).len() == 0 {
                    Option::None
                } else {
                    Option::Some(attr_str(m["clock_in_time"@]))
                },
            },
        )
    }
}

/// How an error value must mirror a specification-level decoding fault:
/// the matching error kind, with the offending field and the full raw row
/// for a malformed one.
pub open spec fn decode_err_matches(
    e: ClockError,
    f: DecodeFault,
    raw: Map<Seq<char>, AttrValV>,
) -> bool {
    match f {
        DecodeFault::MissingOrWrongType(field) => e matches ClockError::ParseMalformedQuery(g, m)
            && g@ == field && m@ == raw,
        DecodeFault::BadUuid => e matches ClockError::ParseUuid,
        DecodeFault::BadTimestamp => e matches ClockError::ParseTimestamp,
    }
}

/// How an executable decoding result must mirror the specification-level
/// one: same success value, or the matching error.
pub open spec fn decode_matches(
    r: Result<ClockSchema, ClockError>,
    d: Result<ClockSchemaV, DecodeFault>,
    raw: Map<Seq<char>, AttrValV>,
) -> bool {
    match d {
        Result::Ok(s) => r matches Result::Ok(c) && c@ == s,
        Result::Err(f) => r matches Result::Err(e) && decode_err_matches(e, f, raw),
    }
}

impl ClockSchema {
    /// Validity of the record held.
    pub open spec fn wf(&self) -> bool {
        wf_clock_v(self@)
    }

    /// A copy that denotes the same record.
    pub fn duplicate(&self) -> (r: ClockSchema)
        ensures
            r@ == self@,
    {
        ClockSchema {
            identity_pool_user_id: self.identity_pool_user_id.duplicate(),
            uuid: self.uuid.duplicate(),
            name: self.name.clone(),
            last_edit: self.last_edit.duplicate(),
            active: self.active,
            clock_in_time: match &self.clock_in_time {
                Option::None => Option::None,
                Option::Some(t) => Option::Some(t.duplicate()),
            },
        }
    }

    /// Writes the record out as a raw row.
    pub fn to_attributes(&self) -> (r: AttrMap)
        ensures
            r@ == spec_encode(self@),
    {
        let mut m = AttrMap::new();
        m.insert(
            "identity_pool_user_id".to_owned(),
            AttrVal::S(self.identity_pool_user_id.as_string().clone()),
        );
        m.insert("uuid".to_owned(), AttrVal::S(self.uuid.as_string().clone()));
        m.insert("name".to_owned(), AttrVal::S(self.name.clone()));
        m.insert("last_edit".to_owned(), AttrVal::S(self.last_edit.as_string().clone()));
        m.insert("active".to_owned(), AttrVal::Bool(self.active));
        let cit = match &self.clock_in_time {
            Option::None => AttrVal::Null(true),
            Option::Some(t) => AttrVal::S(t.as_string().clone()),
        };
        m.insert("clock_in_time".to_owned(), cit);
        m
    }

    /// Reads a record back from a raw row, defending every assumption about
    /// the row's shape with an error.
    pub fn try_from_attributes(m: &AttrMap) -> (r: Result<ClockSchema, ClockError>)
        ensures
            decode_matches(r, spec_decode(m@), m@),
    {
        let key_id = "identity_pool_user_id".to_owned();
        let id_text = match m.get(&key_id) {
            Option::Some(AttrVal::S(s)) => s,
            _ => {
                return Result::Err(ClockError::ParseMalformedQuery(key_id, m.duplicate()));
            },
        };
        let identity_pool_user_id = match Uid::parse(id_text.as_str()) {
            Option::Some(u) => u,
            Option::None => {
                return Result::Err(ClockError::ParseUuid);
            },
        };
        let key_uuid = "uuid".to_owned();
        let uuid_text = match m.get(&key_uuid) {
            Option::Some(AttrVal::S(s)) => s,
            _ => {
                return Result::Err(ClockError::ParseMalformedQuery(key_uuid, m.duplicate()));
            },
        };
        let uuid = match Uid::parse(uuid_text.as_str()) {
            Option::Some(u) => u,
            Option::None => {
                return Result::Err(ClockError::ParseUuid);
            },
        };
        let key_name = "name".to_owned();
        let name = match m.get(&key_name) {
            Option::Some(AttrVal::S(s)) => s.clone(),
            _ => {
                return Result::Err(ClockError::ParseMalformedQuery(key_name, m.duplicate()));
            },
        };
        let key_last_edit = "last_edit".to_owned();
        let last_edit_text = match m.get(&key_last_edit) {
            Option::Some(AttrVal::S(s)) => s,
            _ => {
                return Result::Err(ClockError::ParseMalformedQuery(key_last_edit, m.duplicate()));
            },
        };
        let last_edit = match Timestamp::parse(last_edit_text.as_str()) {
            Option::Some(t) => t,
            Option::None => {
                return Result::Err(ClockError::ParseTimestamp);
            },
        };
        let key_active = "active".to_owned();
        let active = match m.get(&key_active) {
            Option::Some(AttrVal::Bool(b)) => *b,
            _ => {
                return Result::Err(ClockError::ParseMalformedQuery(key_active, m.duplicate()));
            },
        };
        let key_cit = "clock_in_time".to_owned();
        let clock_in_time = match m.get(&key_cit) {
            Option::Some(AttrVal::Null(_)) => Option::None,
            Option::Some(AttrVal::S(x)) => {
                if x.as_str().is_empty() {
                    Option::None
                } else {
                    match Timestamp::parse(x.as_str()) {
                        Option::Some(t) => Option::Some(t),
                        Option::None => {
                            return Result::Err(ClockError::ParseTimestamp);
                        },
                    }
                }
            },
            _ => {
                return Result::Err(ClockError::ParseMalformedQuery(key_cit, m.duplicate()));
            },
        };
        Result::Ok(
            ClockSchema { identity_pool_user_id, uuid, name, last_edit, active, clock_in_time },
        )
    }
}

/// Encoding then decoding gives every valid record back unchanged: the two
/// directions of the codec are mutual inverses.
pub proof fn lemma_codec_round_trip(r: ClockSchemaV)
    requires
        wf_clock_v(r),
    ensures
        spec_decode(spec_encode(r)) == Result::<ClockSchemaV, DecodeFault>::Ok(r),
{
    let m = spec_encode(r);
    lemma_field_keys_distinct();
    if r.clock_in_time is Some {
        assert(attr_str(m["clock_in_time"@]).len() >= 20);
    }
    assert(spec_decode(m) == Result::<ClockSchemaV, DecodeFault>::Ok(r));
}

/// The six field names are pairwise distinct.
pub proof fn lemma_field_keys_distinct()
    ensures
        "identity_pool_user_id"@ != "uuid"@,
        "identity_pool_user_id"@ != "name"@,
        "identity_pool_user_id"@ != "last_edit"@,
        "identity_pool_user_id"@ != "active"@,
        "identity_pool_user_id"@ != "clock_in_time"@,
        "uuid"@ != "name"@,
        "uuid"@ != "last_edit"@,
        "uuid"@ != "active"@,
        "uuid"@ != "clock_in_time"@,
        "name"@ != "last_edit"@,
        "name"@ != "active"@,
        "name"@ != "clock_in_time"@,
        "last_edit"@ != "active"@,
        "last_edit"@ != "clock_in_time"@,
        "active"@ != "clock_in_time"@,
{
    reveal_strlit("identity_pool_user_id");
    reveal_strlit("uuid");
    reveal_strlit("name");
    reveal_strlit("last_edit");
    reveal_strlit("active");
    reveal_strlit("clock_in_time");
    assert("identity_pool_user_id"@.len() == 21);
    assert("uuid"@.len() == 4);
    assert("name"@.len() == 4);
    assert("last_edit"@.len() == 9);
    assert("active"@.len() == 6);
    assert("clock_in_time"@.len() == 13);
    assert("uuid"@[0] == 'u');
    assert("name"@[0] == 'n');
}

} // verus!
