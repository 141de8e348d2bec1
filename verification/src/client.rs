//! The record store client: list, create, edit, delete and
//! validate-ownership over the clock records of authorized owners, with the
//! codec between it and the table.
//!
//! Authorization is the caller's precondition: every operation takes an
//! owner identity that the authorization gate has already resolved. The
//! operations perform no validation of business transitions — setting
//! `active` without a clock-in time is the caller's affair.

use vstd::prelude::*;

use crate::attr::{AttrVal, AttrValV};
use crate::clocks::{
    attr_is_s, attr_str, decode_err_matches, decode_matches, lemma_field_keys_distinct,
    spec_decode, spec_encode, ClockError, ClockInTimeUpdate, ClockSchema, ClockSchemaV,
    CreateClockInput, DecodeFault, DeleteClockInput, EditClockInput, EditClockInputStrategy,
    GetClocksInput, ValidateUserClaimsToClockInput,
};
use crate::store::{apply_assigns, assigns_view, lemma_apply_assigns_concat, spec_updated, Table};
use crate::timestamp::{is_rfc3339_text, Timestamp};
use crate::uid::{is_uuid_text, Uid};

verus! {

/// How an executable edit result must mirror the specification-level
/// decoding of the written image: the updated record, or the matching
/// error.
pub open spec fn opt_decode_matches(
    r: Result<Option<ClockSchema>, ClockError>,
    d: Result<ClockSchemaV, DecodeFault>,
    raw: Map<Seq<char>, AttrValV>,
) -> bool {
    match d {
        Result::Ok(s) => r matches Result::Ok(Option::Some(c)) && c@ == s,
        Result::Err(f) => r matches Result::Err(e) && decode_err_matches(e, f, raw),
    }
}

/// The assignments a full-record replacement writes: every non-key field
/// from the supplied record, and `last_edit` stamped by the store.
pub open spec fn publish_assigns(c: ClockSchemaV, now: Seq<char>) -> Seq<(Seq<char>, AttrValV)> {
    seq![
        ("name"@, AttrValV::S(c.name)),
        ("active"@, AttrValV::Bool(c.active)),
        (
            "clock_in_time"@,
            match c.clock_in_time {
                Option::None => AttrValV::Null(true),
                Option::Some(t) => AttrValV::S(t),
            },
        ),
        ("last_edit"@, AttrValV::S(now)),
    ]
}

/// The assignments a partial field patch writes: `last_edit` stamped by the
/// store, then exactly the supplied fields; a cleared clock-in time is
/// written as the empty string.
pub open spec fn fields_assigns(
    name: Option<String>,
    active: Option<bool>,
    clock_in_time: ClockInTimeUpdate,
    now: Seq<char>,
) -> Seq<(Seq<char>, AttrValV)> {
    seq![("last_edit"@, AttrValV::S(now))] + (match name {
        Option::Some(n) => seq![("name"@, AttrValV::S(n@))],
        Option::None => Seq::empty(),
    }) + (match active {
        Option::Some(b) => seq![("active"@, AttrValV::Bool(b))],
        Option::None => Seq::empty(),
    }) + (match clock_in_time {
        ClockInTimeUpdate::NoChange => Seq::empty(),
        ClockInTimeUpdate::Clear => seq![("clock_in_time"@, AttrValV::S(Seq::<char>::empty()))],
        ClockInTimeUpdate::SetTo(t) => seq![("clock_in_time"@, AttrValV::S(t@))],
    })
}

/// The record store client. It holds the table it works against; every
/// operation round-trips to it, with no cache in between.
#[derive(Debug)]
pub struct ClockClient {
    table: Table,
}

impl View for ClockClient {
    type V = Map<(Seq<char>, Seq<char>), Map<Seq<char>, AttrValV>>;

    closed spec fn view(&self) -> Map<(Seq<char>, Seq<char>), Map<Seq<char>, AttrValV>> {
        self.table@
    }
}

impl ClockClient {
    /// Validity of the client's table.
    pub closed spec fn wf(&self) -> bool {
        self.table.wf()
    }

    /// A client over an empty table.
    pub fn new() -> (r: ClockClient)
        ensures
            r@ == Map::<(Seq<char>, Seq<char>), Map<Seq<char>, AttrValV>>::empty(),
            r.wf(),
    {
        ClockClient { table: Table::new() }
    }

    /// Every record of the owner, decoded; the empty list — not an error —
    /// when the owner has none, and the first record that does not decode
    /// fails the whole listing.
    #[verifier::rlimit(100)]
    pub fn get_clocks(&self, input: &GetClocksInput) -> (r: Result<Vec<ClockSchema>, ClockError>)
        requires
            self.wf(),
        ensures
            (r is Ok) <==> (forall|k: (Seq<char>, Seq<char>)| #![trigger self@.contains_key(k)]
                self@.contains_key(k) && k.0 == input.0@ ==> spec_decode(self@[k]) is Ok),
            r is Ok ==> (forall|c: ClockSchema| #![trigger r->Ok_0@.contains(c)]
                r->Ok_0@.contains(c) ==> exists|k: (Seq<char>, Seq<char>)|
                    #![trigger self@.contains_key(k)]
                    self@.contains_key(k) && k.0 == input.0@ && spec_decode(self@[k]) == Result::<
                        ClockSchemaV,
                        DecodeFault,
                    >::Ok(c@)),
            r is Ok ==> (forall|k: (Seq<char>, Seq<char>)| #![trigger self@.contains_key(k)]
                self@.contains_key(k) && k.0 == input.0@ ==> exists|j: int|
                    #![trigger r->Ok_0@[j]]
                    0 <= j < r->Ok_0@.len() && spec_decode(self@[k]) == Result::<
                        ClockSchemaV,
                        DecodeFault,
                    >::Ok(r->Ok_0@[j]@)),
            r matches Result::Err(e) ==> (exists|k: (Seq<char>, Seq<char>)|
                #![trigger self@.contains_key(k)]
                self@.contains_key(k) && k.0 == input.0@ && (spec_decode(self@[k]) matches Result::Err(f)
                    && decode_err_matches(e, f, self@[k]))),
    {
        let (maps, keys) = self.table.query(&input.0);
        let n = maps.len();
        let mut out: Vec<ClockSchema> = Vec::new();
        let mut i: usize = 0;
        while i < n
            invariant
                self.wf(),
                i <= n,
                n == maps@.len(),
                keys@.len() == n,
                out@.len() == i,
                forall|j: int| #![trigger keys@[j]]
                    0 <= j < n ==> keys@[j].0 == input.0@ && self@.contains_key(keys@[j])
                        && maps@[j]@ == self@[keys@[j]],
                forall|k: (Seq<char>, Seq<char>)| #![trigger self@.contains_key(k)]
                    self@.contains_key(k) && k.0 == input.0@ ==> keys@.contains(k),
                forall|j: int| #![trigger out@[j]]
                    0 <= j < i ==> spec_decode(maps@[j]@) == Result::<
                        ClockSchemaV,
                        DecodeFault,
                    >::Ok(out@[j]@),
            decreases n - i,
        {
            match ClockSchema::try_from_attributes(&maps[i]) {
                Result::Ok(c) => {
                    out.push(c);
                },
                Result::Err(e) => {
                    proof {
                        assert(self@.contains_key(keys@[i as int]));
                        assert(maps@[i as int]@ == self@[keys@[i as int]]);
                        assert(spec_decode(self@[keys@[i as int]]) is Err);
                    }
                    return Result::Err(e);
                },
            }
            i = i + 1;
        }
        let ghost gout = out@;
        let result: Result<Vec<ClockSchema>, ClockError> = Result::Ok(out);
        proof {
            assert(result->Ok_0@ == gout);
            assert forall|k: (Seq<char>, Seq<char>)| #[trigger]
                self@.contains_key(k) && k.0 == input.0@ implies spec_decode(self@[k]) is Ok
                && (exists|j: int| #![trigger result->Ok_0@[j]]
                0 <= j < result->Ok_0@.len() && spec_decode(self@[k]) == Result::<
                    ClockSchemaV,
                    DecodeFault,
                >::Ok(result->Ok_0@[j]@)) by {
                assert(keys@.contains(k));
                let j = choose|j: int| 0 <= j < keys@.len() && keys@[j] == k;
                assert(maps@[j]@ == self@[k]);
                assert(spec_decode(maps@[j]@) == Result::<ClockSchemaV, DecodeFault>::Ok(
                    gout[j]@,
                ));
                assert(result->Ok_0@[j] == gout[j]);
                assert(spec_decode(self@[k]) == Result::<ClockSchemaV, DecodeFault>::Ok(
                    result->Ok_0@[j]@,
                ));
            }
            assert forall|c: ClockSchema| #[trigger]
                result->Ok_0@.contains(c) implies exists|k: (Seq<char>, Seq<char>)|
                #![trigger self@.contains_key(k)]
                self@.contains_key(k) && k.0 == input.0@ && spec_decode(self@[k]) == Result::<
                    ClockSchemaV,
                    DecodeFault,
                >::Ok(c@) by {
                let j = choose|j: int| 0 <= j < result->Ok_0@.len() && result->Ok_0@[j] == c;
                assert(result->Ok_0@[j] == gout[j]);
                assert(self@.contains_key(keys@[j]));
                assert(maps@[j]@ == self@[keys@[j]]);
                assert(spec_decode(maps@[j]@) == Result::<ClockSchemaV, DecodeFault>::Ok(
                    gout[j]@,
                ));
                assert(spec_decode(self@[keys@[j]]) == Result::<ClockSchemaV, DecodeFault>::Ok(
                    c@,
                ));
            }
        }
        result
    }

    /// Creates a record for the owner: a freshly generated record
    /// identifier, `active` false, no clock-in time, `last_edit` stamped
    /// with the given instant.
    pub fn create_clock(&mut self, input: CreateClockInput, now: Timestamp) -> (r: Result<
        ClockSchema,
        ClockError,
    >)
        requires
            old(self).wf(),
        ensures
            final(self).wf(),
            r matches Result::Ok(c) && {
                &&& c@.identity_pool_user_id == input.identity_pool_user_id@
                &&& c@.name == input.name@
                &&& c@.last_edit == now@
                &&& c@.active == false
                &&& c@.clock_in_time is None
                &&& is_uuid_text(c@.uuid)
                &&& final(self)@ == old(self)@.insert(
                    (c@.identity_pool_user_id, c@.uuid),
                    spec_encode(c@),
                )
            },
    {
        let uuid = Uid::fresh();
        let clock = ClockSchema {
            identity_pool_user_id: input.identity_pool_user_id,
            uuid,
            name: input.name,
            last_edit: now,
            active: false,
            clock_in_time: Option::None,
        };
        let attrs = clock.to_attributes();
        self.table.put(clock.identity_pool_user_id.duplicate(), clock.uuid.duplicate(), attrs);
        Result::Ok(clock)
    }

    /// The record under the owner's key, decoded: the ownership check.
    /// A record that is absent — or sits under a different owner — fails
    /// with `ClockNotFound`, the same answer either way.
    pub fn validate_user_claims_to_clock(&self, input: ValidateUserClaimsToClockInput) -> (r:
        Result<ClockSchema, ClockError>)
        requires
            self.wf(),
        ensures
            !self@.contains_key((input.identity_pool_user_id@, input.uuid@)) ==> (r matches Result::Err(
                ClockError::ClockNotFound(a, b),
            ) && a@ == input.identity_pool_user_id@ && b@ == input.uuid@),
            self@.contains_key((input.identity_pool_user_id@, input.uuid@)) ==> decode_matches(
                r,
                spec_decode(self@[(input.identity_pool_user_id@, input.uuid@)]),
                self@[(input.identity_pool_user_id@, input.uuid@)],
            ),
    {
        match self.table.get(&input.identity_pool_user_id, &input.uuid) {
            Option::Some(attrs) => ClockSchema::try_from_attributes(attrs),
            Option::None => Result::Err(
                ClockError::ClockNotFound(input.identity_pool_user_id, input.uuid),
            ),
        }
    }

    /// Deletes the record under the owner's key and hands back the
    /// last-known snapshot; an absent key fails with `ClockNotFound`.
    pub fn delete_clock(&mut self, input: DeleteClockInput) -> (r: Result<ClockSchema, ClockError>)
        requires
            old(self).wf(),
        ensures
            final(self).wf(),
            final(self)@ == old(self)@.remove((input.identity_pool_user_id@, input.uuid@)),
            !old(self)@.contains_key((input.identity_pool_user_id@, input.uuid@)) ==> (r matches Result::Err(
                ClockError::ClockNotFound(a, b),
            ) && a@ == input.identity_pool_user_id@ && b@ == input.uuid@),
            old(self)@.contains_key((input.identity_pool_user_id@, input.uuid@)) ==> decode_matches(
                r,
                spec_decode(old(self)@[(input.identity_pool_user_id@, input.uuid@)]),
                old(self)@[(input.identity_pool_user_id@, input.uuid@)],
            ),
    {
        match self.table.delete(&input.identity_pool_user_id, &input.uuid) {
            Option::Some(attrs) => ClockSchema::try_from_attributes(&attrs),
            Option::None => Result::Err(
                ClockError::ClockNotFound(input.identity_pool_user_id, input.uuid),
            ),
        }
    }

    /// Applies an edit to the record under the given identifier.
    ///
    /// A `Fields` patch with none of the three optional fields issues no
    /// write and yields `None`. Otherwise exactly the supplied fields plus
    /// `last_edit` are written and the new image is decoded back. A
    /// `Publish` whose payload carries a different record identifier fails
    /// with `ClockNotFound` and writes nothing; on a match every non-key
    /// field is replaced in one write, `last_edit` stamped by the store.
    pub fn edit_clock(&mut self, input: EditClockInput, now: Timestamp) -> (r: Result<
        Option<ClockSchema>,
        ClockError,
    >)
        requires
            old(self).wf(),
        ensures
            final(self).wf(),
            input.update matches EditClockInputStrategy::Publish(c) ==> (if c.uuid@ != input.uuid@ {
                &&& final(self)@ == old(self)@
                &&& (r matches Result::Err(ClockError::ClockNotFound(a, b)) && a@
                    == c.identity_pool_user_id@ && b@ == input.uuid@)
            } else {
                let img = spec_updated(
                    old(self)@,
                    c.identity_pool_user_id@,
                    input.uuid@,
                    publish_assigns(c@, now@),
                );
                &&& final(self)@ == old(self)@.insert((c.identity_pool_user_id@, input.uuid@), img)
                &&& opt_decode_matches(r, spec_decode(img), img)
            }),
            input.update matches EditClockInputStrategy::Fields {
                identity_pool_user_id: o,
                name: nm,
                active: ac,
                clock_in_time: ct,
            } ==> (if nm is None && ac is None && ct is NoChange {
                &&& final(self)@ == old(self)@
                &&& r matches Result::Ok(Option::None)
            } else {
                let img = spec_updated(old(self)@, o@, input.uuid@, fields_assigns(nm, ac, ct, now@));
                &&& final(self)@ == old(self)@.insert((o@, input.uuid@), img)
                &&& opt_decode_matches(r, spec_decode(img), img)
            }),
    {
        match input.update {
            EditClockInputStrategy::Publish(clock) => {
                if !input.uuid.same(&clock.uuid) {
                    return Result::Err(
                        ClockError::ClockNotFound(clock.identity_pool_user_id, input.uuid),
                    );
                }
                let mut assigns: Vec<(String, AttrVal)> = Vec::new();
                assigns.push(("name".to_owned(), AttrVal::S(clock.name.clone())));
                assigns.push(("active".to_owned(), AttrVal::Bool(clock.active)));
                let cit = match &clock.clock_in_time {
                    Option::None => AttrVal::Null(true),
                    Option::Some(t) => AttrVal::S(t.as_string().clone()),
                };
                assigns.push(("clock_in_time".to_owned(), cit));
                assigns.push(("last_edit".to_owned(), AttrVal::S(now.as_string().clone())));
                proof {
                    assert(assigns_view(assigns@) =~= publish_assigns(clock@, now@));
                }
                let img = self.table.update(&clock.identity_pool_user_id, &input.uuid, &assigns);
                match ClockSchema::try_from_attributes(&img) {
                    Result::Ok(c) => Result::Ok(Option::Some(c)),
                    Result::Err(e) => Result::Err(e),
                }
            },
            EditClockInputStrategy::Fields { identity_pool_user_id, name, active, clock_in_time } => {
                let ghost gname = name;
                let ghost gactive = active;
                let ghost gcit = clock_in_time;
                let no_change = match &clock_in_time {
                    ClockInTimeUpdate::NoChange => true,
                    _ => false,
                };
                if name.is_none() && active.is_none() && no_change {
                    return Result::Ok(Option::None);
                }
                let mut assigns: Vec<(String, AttrVal)> = Vec::new();
                assigns.push(("last_edit".to_owned(), AttrVal::S(now.as_string().clone())));
                match name {
                    Option::Some(n) => {
                        assigns.push(("name".to_owned(), AttrVal::S(n)));
                    },
                    Option::None => {},
                }
                match active {
                    Option::Some(b) => {
                        assigns.push(("active".to_owned(), AttrVal::Bool(b)));
                    },
                    Option::None => {},
                }
                match clock_in_time {
                    ClockInTimeUpdate::NoChange => {},
                    ClockInTimeUpdate::Clear => {
                        assigns.push(("clock_in_time".to_owned(), AttrVal::S(String::new())));
                    },
                    ClockInTimeUpdate::SetTo(t) => {
                        assigns.push(("clock_in_time".to_owned(), AttrVal::S(t.as_string().clone())));
                    },
                }
                proof {
                    assert(assigns_view(assigns@) =~= fields_assigns(gname, gactive, gcit, now@));
                }
                let img = self.table.update(&identity_pool_user_id, &input.uuid, &assigns);
                match ClockSchema::try_from_attributes(&img) {
                    Result::Ok(c) => Result::Ok(Option::Some(c)),
                    Result::Err(e) => Result::Err(e),
                }
            },
        }
    }
}


/// Partial edit semantics: a `Fields` patch applied to a row that decodes
/// cleanly yields a row that again decodes cleanly, with exactly the
/// supplied fields changed, the others kept, and `last_edit` restamped.
pub proof fn lemma_fields_update_decode(
    m: Map<Seq<char>, AttrValV>,
    name: Option<String>,
    active: Option<bool>,
    clock_in_time: ClockInTimeUpdate,
    now: Seq<char>,
    s: ClockSchemaV,
)
    requires
        spec_decode(m) == Result::<ClockSchemaV, DecodeFault>::Ok(s),
        is_rfc3339_text(now),
        clock_in_time matches ClockInTimeUpdate::SetTo(t) ==> is_rfc3339_text(t@),
    ensures
        spec_decode(apply_assigns(m, fields_assigns(name, active, clock_in_time, now)))
            == Result::<ClockSchemaV, DecodeFault>::Ok(
            ClockSchemaV {
                identity_pool_user_id: s.identity_pool_user_id,
                uuid: s.uuid,
                name: match name {
                    Option::Some(n) => n@,
                    Option::None => s.name,
                },
                active: match active {
                    Option::Some(b) => b,
                    Option::None => s.active,
                },
                clock_in_time: match clock_in_time {
                    ClockInTimeUpdate::NoChange => s.clock_in_time,
                    ClockInTimeUpdate::Clear => Option::None,
                    ClockInTimeUpdate::SetTo(t) => Option::Some(t@),
                },
                last_edit: now,
            },
        ),
{
    lemma_field_keys_distinct();
    let a1 = seq![("last_edit"@, AttrValV::S(now))];
    let a2 = match name {
        Option::Some(n) => seq![("name"@, AttrValV::S(n@))],
        Option::None => Seq::empty(),
    };
    let a3 = match active {
        Option::Some(b) => seq![("active"@, AttrValV::Bool(b))],
        Option::None => Seq::empty(),
    };
    let a4 = match clock_in_time {
        ClockInTimeUpdate::NoChange => Seq::empty(),
        ClockInTimeUpdate::Clear => seq![("clock_in_time"@, AttrValV::S(Seq::<char>::empty()))],
        ClockInTimeUpdate::SetTo(t) => seq![("clock_in_time"@, AttrValV::S(t@))],
    };
    assert(fields_assigns(name, active, clock_in_time, now) == ((a1 + a2) + a3) + a4);
    lemma_apply_assigns_concat(m, (a1 + a2) + a3, a4);
    lemma_apply_assigns_concat(m, a1 + a2, a3);
    lemma_apply_assigns_concat(m, a1, a2);
    lemma_apply_one(m, ("last_edit"@, AttrValV::S(now)));
    let m1 = apply_assigns(m, a1);
    lemma_apply_opt(m1, a2);
    let m2 = apply_assigns(m1, a2);
    lemma_apply_opt(m2, a3);
    let m3 = apply_assigns(m2, a3);
    lemma_apply_opt(m3, a4);
}

/// Applying a single assignment is one map insertion.
proof fn lemma_apply_one(m: Map<Seq<char>, AttrValV>, x: (Seq<char>, AttrValV))
    ensures
        apply_assigns(m, seq![x]) == m.insert(x.0, x.1),
{
    assert(apply_assigns(m, Seq::<(Seq<char>, AttrValV)>::empty()) == m);
    assert(seq![x].drop_last() =~= Seq::<(Seq<char>, AttrValV)>::empty());
    assert(seq![x].last() == x);
}

/// Applying an empty or single-element assignment list.
proof fn lemma_apply_opt(m: Map<Seq<char>, AttrValV>, s: Seq<(Seq<char>, AttrValV)>)
    requires
        s.len() <= 1,
    ensures
        s.len() == 0 ==> apply_assigns(m, s) == m,
        s.len() == 1 ==> apply_assigns(m, s) == m.insert(s[0].0, s[0].1),
{
    if s.len() == 1 {
        assert(apply_assigns(m, Seq::<(Seq<char>, AttrValV)>::empty()) == m);
        assert(s.drop_last() =~= Seq::<(Seq<char>, AttrValV)>::empty());
        assert(s.last() == s[0]);
    }
}

/// Delete semantics: `delete_clock` leaves the table at
/// `old(self)@.remove(key)`, and under that table
/// `validate_user_claims_to_clock` answers `ClockNotFound` for the same
/// key, since the key is no longer bound.
pub proof fn lemma_delete_then_validate(
    t: Map<(Seq<char>, Seq<char>), Map<Seq<char>, AttrValV>>,
    owner: Seq<char>,
    id: Seq<char>,
)
    ensures
        !t.remove((owner, id)).contains_key((owner, id)),
{
}

/// Ownership isolation: a record stored under one owner's key — as
/// `create_clock` and `edit_clock` store them — stays invisible to
/// `validate_user_claims_to_clock` under any other owner, which therefore
/// answers `ClockNotFound`, the same answer as for a record that does not
/// exist at all.
pub proof fn lemma_ownership_isolation(
    t: Map<(Seq<char>, Seq<char>), Map<Seq<char>, AttrValV>>,
    owner_a: Seq<char>,
    owner_b: Seq<char>,
    id: Seq<char>,
    attrs: Map<Seq<char>, AttrValV>,
)
    requires
        owner_a != owner_b,
        !t.contains_key((owner_a, id)),
    ensures
        !t.insert((owner_b, id), attrs).contains_key((owner_a, id)),
{
    assert((owner_a, id) != (owner_b, id));
}


/// Full-replacement semantics: a `Publish` write over a base row that
/// carries well-formed key attributes yields a row that decodes cleanly to
/// the supplied record under the base row's keys, with `last_edit`
/// restamped — whatever else the base row held.
pub proof fn lemma_publish_update_decode(
    base: Map<Seq<char>, AttrValV>,
    c: ClockSchemaV,
    now: Seq<char>,
)
    requires
        base.contains_key("identity_pool_user_id"@) && attr_is_s(base["identity_pool_user_id"@])
            && is_uuid_text(attr_str(base["identity_pool_user_id"@])),
        base.contains_key("uuid"@) && attr_is_s(base["uuid"@]) && is_uuid_text(
            attr_str(base["uuid"@]),
        ),
        is_rfc3339_text(now),
        c.clock_in_time matches Option::Some(t) ==> is_rfc3339_text(t),
    ensures
        spec_decode(apply_assigns(base, publish_assigns(c, now))) == Result::<
            ClockSchemaV,
            DecodeFault,
        >::Ok(
            ClockSchemaV {
                identity_pool_user_id: attr_str(base["identity_pool_user_id"@]),
                uuid: attr_str(base["uuid"@]),
                name: c.name,
                active: c.active,
                clock_in_time: c.clock_in_time,
                last_edit: now,
            },
        ),
{
    lemma_field_keys_distinct();
    let e0 = ("name"@, AttrValV::S(c.name));
    let e1 = ("active"@, AttrValV::Bool(c.active));
    let e2 = (
        "clock_in_time"@,
        match c.clock_in_time {
            Option::None => AttrValV::Null(true),
            Option::Some(t) => AttrValV::S(t),
        },
    );
    let e3 = ("last_edit"@, AttrValV::S(now));
    assert(publish_assigns(c, now) =~= ((seq![e0] + seq![e1]) + seq![e2]) + seq![e3]);
    lemma_apply_assigns_concat(base, (seq![e0] + seq![e1]) + seq![e2], seq![e3]);
    lemma_apply_assigns_concat(base, seq![e0] + seq![e1], seq![e2]);
    lemma_apply_assigns_concat(base, seq![e0], seq![e1]);
    lemma_apply_one(base, e0);
    lemma_apply_one(apply_assigns(base, seq![e0]), e1);
    lemma_apply_one(apply_assigns(base, seq![e0] + seq![e1]), e2);
    lemma_apply_one(apply_assigns(base, (seq![e0] + seq![e1]) + seq![e2]), e3);
    if c.clock_in_time is Some {
        assert(attr_str(e2.1).len() >= 20);
    }
}

} // verus!
