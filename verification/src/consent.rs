use vstd::prelude::*;

use crate::clock::{now_utc, Timestamp};
use crate::discord::lists_those;
use crate::error::{failed_validation, is_failed_validation, Error, Result};
use crate::ids::{is_ulid, new_ulid};
use crate::order::{insert_sorted, is_place, is_sorted, Ordered};
use crate::policy::{
    find_policy, is_in_force, lemma_in_force, lemma_published, newest, newest_policy, published,
    AbstractPolicyChange, Acknowledged, Consents, PolicyChange,
};
use crate::reference::ReferenceDb;
use crate::table::{unique_ids, Keyed};
use crate::text::{copy_of, same};

verus! {

/// Why consent without any decision is refused.
pub const NO_ACKS: &'static str = "no acknowledgements supplied";

/// Why consent to another text is refused.
pub const WRONG_TEXT: &'static str = "policy_sha256 does not match the published policy";

/// Why consent to a text that cannot be told apart is refused.
pub const NO_TEXT: &'static str = "policy has no published sha256; cannot record consent";

/// Whether a record grants consent or withdraws it. A withdrawal is a record of its own, never
/// an edit to the grant.
#[derive(Debug, Clone, Copy, PartialEq, Eq, Structural)]
pub enum ConsentEvent {
    Grant,
    Withdraw,
}

/// Which surface the acknowledgement was made from.
#[derive(Debug, Clone, Copy, PartialEq, Eq, Structural)]
pub enum ConsentClient {
    Web,
    Android,
    Api,
}

/// The record of one consent decision, for one item, by one user.
#[derive(Debug, PartialEq, Eq)]
pub struct ConsentRecord {
    /// Unique Id
    pub id: String,
    /// User who made this decision
    pub user_id: String,
    /// Whether consent was granted or withdrawn
    pub event: ConsentEvent,
    /// When the decision was made, in UTC
    pub utc_timestamp: Timestamp,
    /// The policy change this decision relates to
    pub policy_id: String,
    /// Human-readable version of the policy text presented
    pub policy_version: String,
    /// SHA-256 of the exact document body that was presented
    pub policy_sha256: String,
    /// Which unbundled item this row is for
    pub ack_key: String,
    /// Surface the decision was made from
    pub client: ConsentClient,
    /// Source IP at the time of the decision
    pub ip: Option<String>,
    /// User agent at the time of the decision
    pub user_agent: Option<String>,
}

/// The client's User-Agent, as observed by the server.
#[derive(Debug, PartialEq, Eq)]
pub struct UserAgent(pub Option<String>);

/// One unbundled acknowledgement: which item, and whether it was agreed to.
#[derive(Debug, PartialEq, Eq)]
pub struct ConsentAck {
    pub ack_key: String,
    pub granted: bool,
}

/// A member's consent decisions against a specific policy version, one entry per item.
#[derive(Debug, PartialEq, Eq)]
pub struct DataConsent {
    /// The policy change these decisions relate to
    pub policy_id: String,
    /// Human-readable version of the text that was presented
    pub policy_version: String,
    /// SHA-256 of the exact document body presented to the member
    pub policy_sha256: String,
    /// One entry per unbundled item
    pub acks: Vec<ConsentAck>,
    /// Which surface this came from, as the client says
    pub client: Option<String>,
}

/// The account's current consent position on the policy in force.
#[derive(Debug, PartialEq, Eq)]
pub struct ConsentState {
    /// The policy these decisions are measured against
    pub policy_id: String,
    /// Human-readable version of that policy
    pub policy_version: Option<String>,
    /// Every item this account has decided on, granted or not
    pub acks: Vec<ConsentAck>,
}

impl Clone for ConsentRecord {
    fn clone(&self) -> (copy: Self)
        ensures
            copy == *self,
    {
        ConsentRecord {
            id: self.id.clone(),
            user_id: self.user_id.clone(),
            event: self.event,
            utc_timestamp: self.utc_timestamp,
            policy_id: self.policy_id.clone(),
            policy_version: self.policy_version.clone(),
            policy_sha256: self.policy_sha256.clone(),
            ack_key: self.ack_key.clone(),
            client: self.client,
            ip: copy_of(&self.ip),
            user_agent: copy_of(&self.user_agent),
        }
    }
}

impl Keyed for ConsentRecord {
    open spec fn id(&self) -> Seq<char> {
        self.id@
    }

    fn key(&self) -> (key: &str) {
        self.id.as_str()
    }
}

/// Records go by the time of the decision, oldest first.
impl Ordered for ConsentRecord {
    open spec fn precedes(&self, other: &Self) -> bool {
        self.utc_timestamp.earlier_than(other.utc_timestamp)
    }

    proof fn lemma_asymmetric(&self, other: &Self) {
    }

    proof fn lemma_negatively_transitive(&self, other: &Self, third: &Self) {
    }

    fn comes_before(&self, other: &Self) -> (result: bool) {
        self.utc_timestamp.is_before(other.utc_timestamp)
    }
}

/// The records of a user.
pub open spec fn made_by(user_id: Seq<char>) -> spec_fn(ConsentRecord) -> bool {
    |record: ConsentRecord| record.user_id@ == user_id
}

/// Where consent records are kept. Append-only: there is deliberately no update or delete here.
pub trait AbstractConsentRecord: AbstractPolicyChange {
    /// Whether appending a record may end with an error.
    spec fn may_refuse(record: ConsentRecord, error: Error) -> bool;

    /// Whether fetching records may end with an error.
    spec fn consents_may_answer(error: Error) -> bool;

    /// Append a consent record. A withdrawal is a new record.
    fn insert_consent_record(&mut self, record: &ConsentRecord) -> (result: Result<()>)
        requires
            old(self).consents_valid(),
        ensures
            final(self).consents_valid(),
            final(self).consents_reliable() == old(self).consents_reliable(),
            final(self).policies_reliable() == old(self).policies_reliable(),
            final(self).policies() == old(self).policies(),
            final(self).acknowledged() == old(self).acknowledged(),
            old(self).consents_reliable() ==> result is Ok,
            result matches Err(error) ==> Self::may_refuse(*record, error),
            result is Ok ==> final(self).consents() == old(self).consents().insert(
                record.id@,
                *record,
            ),
            result is Err ==> final(self).consents() == old(self).consents()
                || final(self).consents() == old(self).consents().insert(record.id@, *record),
    ;

    /// Fetch every consent record for a user, oldest first.
    fn fetch_consent_records(&self, user_id: &str) -> (result: Result<Vec<ConsentRecord>>)
        requires
            self.consents_valid(),
        ensures
            self.consents_reliable() ==> result is Ok,
            result matches Err(error) ==> Self::consents_may_answer(error),
            result matches Ok(list) ==> is_sorted(list@) && lists_those(
                list@,
                self.consents(),
                made_by(user_id@),
            ),
    ;
}

impl AbstractConsentRecord for ReferenceDb {
    open spec fn may_refuse(record: ConsentRecord, error: Error) -> bool {
        false
    }

    open spec fn consents_may_answer(error: Error) -> bool {
        false
    }

    fn insert_consent_record(&mut self, record: &ConsentRecord) -> (result: Result<()>) {
        self.consent_records.put(record.clone());
        Ok(())
    }

    fn fetch_consent_records(&self, user_id: &str) -> (result: Result<Vec<ConsentRecord>>) {
        let mut list: Vec<ConsentRecord> = Vec::new();
        let ghost rows = self.consent_records.rows();
        let ghost wanted = made_by(user_id@);
        let count: usize = self.consent_records.len();
        for i in 0..count
            invariant
                count == rows.len(),
                rows == self.consent_records.rows(),
                wanted == made_by(user_id@),
                unique_ids(rows),
                is_sorted(list@),
                unique_ids(list@),
                forall|j: int|
                    #![trigger list@[j]]
                    0 <= j < list@.len() ==> rows.take(i as int).contains(list@[j]) && wanted(
                        list@[j],
                    ),
                forall|j: int|
                    #![trigger rows[j]]
                    0 <= j < i && wanted(rows[j]) ==> list@.contains(rows[j]),
        {
            let record = self.consent_records.at(i);
            let ghost earlier = list@;
            if same(record.user_id.as_str(), user_id) {
                insert_sorted(&mut list, record.clone());
                proof {
                    let place = choose|place: int| #[trigger]
                        is_place(earlier, *record, place) && list@ == earlier.insert(
                            place,
                            *record,
                        );
                    crate::discord::lemma_inserted(
                        earlier,
                        list@,
                        *record,
                        place,
                        rows,
                        i as int,
                        wanted,
                    );
                }
            } else {
                proof {
                    crate::discord::lemma_prefix_grows(earlier, rows, i as int, wanted);
                }
            }
        }
        proof {
            assert(rows.take(rows.len() as int) =~= rows);
            crate::discord::lemma_lists_all(list@, rows, wanted);
        }
        Ok(list)
    }
}

/// The surface that a client says it is.
pub open spec fn surface(client: Option<String>) -> ConsentClient {
    match client {
        Some(name) => if name@ == "android"@ {
            ConsentClient::Android
        } else if name@ == "web"@ {
            ConsentClient::Web
        } else {
            ConsentClient::Api
        },
        None => ConsentClient::Api,
    }
}

fn surface_of(client: &Option<String>) -> (result: ConsentClient)
    ensures
        result == surface(*client),
{
    match client {
        Some(name) => if same(name.as_str(), "android") {
            ConsentClient::Android
        } else if same(name.as_str(), "web") {
            ConsentClient::Web
        } else {
            ConsentClient::Api
        },
        None => ConsentClient::Api,
    }
}

/// Whether a record is that of one decision of a user, made at a time.
pub open spec fn is_record_of(
    record: ConsentRecord,
    user_id: Seq<char>,
    data: DataConsent,
    ack: ConsentAck,
    now: Timestamp,
    ip: Option<String>,
    user_agent: UserAgent,
) -> bool {
    &&& record.user_id@ == user_id
    &&& record.event == if ack.granted {
        ConsentEvent::Grant
    } else {
        ConsentEvent::Withdraw
    }
    &&& record.utc_timestamp == now
    &&& record.policy_id == data.policy_id
    &&& record.policy_version == data.policy_version
    &&& record.policy_sha256 == data.policy_sha256
    &&& record.ack_key == ack.ack_key
    &&& record.client == surface(data.client)
    &&& record.ip == ip
    &&& record.user_agent == user_agent.0
}

/// The record of one decision, under an id and with the time that it was made at.
pub fn consent_record(
    id: String,
    user_id: &str,
    data: &DataConsent,
    ack: &ConsentAck,
    now: Timestamp,
    ip: &Option<String>,
    user_agent: &UserAgent,
) -> (record: ConsentRecord)
    ensures
        record.id == id,
        is_record_of(record, user_id@, *data, *ack, now, *ip, *user_agent),
{
    ConsentRecord {
        id,
        user_id: user_id.to_owned(),
        event: if ack.granted {
            ConsentEvent::Grant
        } else {
            ConsentEvent::Withdraw
        },
        utc_timestamp: now,
        policy_id: data.policy_id.clone(),
        policy_version: data.policy_version.clone(),
        policy_sha256: data.policy_sha256.clone(),
        ack_key: ack.ack_key.clone(),
        client: surface_of(&data.client),
        ip: copy_of(ip),
        user_agent: copy_of(&user_agent.0),
    }
}

/// Whether records are those of all decisions, one each, in order, at one time, under ids of
/// their own making.
pub open spec fn are_records_of(
    records: Seq<ConsentRecord>,
    user_id: Seq<char>,
    data: DataConsent,
    acks: Seq<ConsentAck>,
    ip: Option<String>,
    user_agent: UserAgent,
) -> bool {
    &&& records.len() == acks.len()
    &&& exists|now: Timestamp| #[trigger]
        now.normal() && forall|i: int|
            0 <= i < records.len() ==> is_ulid((#[trigger] records[i]).id@) && is_record_of(
                records[i],
                user_id,
                data,
                acks[i],
                now,
                ip,
                user_agent,
            )
}

/// What is kept after some records were appended.
pub open spec fn appended(
    kept: Map<Seq<char>, ConsentRecord>,
    records: Seq<ConsentRecord>,
) -> Map<Seq<char>, ConsentRecord>
    decreases records.len(),
{
    if records.len() == 0 {
        kept
    } else {
        appended(kept, records.drop_last()).insert(records.last().id@, records.last())
    }
}

/// Whether what is kept now is what was kept before and the records of the first decisions of a
/// user, so many of them.
pub open spec fn appends_decisions(
    before: Map<Seq<char>, ConsentRecord>,
    after: Map<Seq<char>, ConsentRecord>,
    user_id: Seq<char>,
    data: DataConsent,
    count: int,
    ip: Option<String>,
    user_agent: UserAgent,
) -> bool {
    exists|records: Seq<ConsentRecord>| #[trigger]
        are_records_of(records, user_id, data, data.acks@.take(count), ip, user_agent) && after
            == appended(before, records)
}

/// Whether decisions are about a text that was published and can be told apart.
pub open spec fn is_about_published(policies: Seq<PolicyChange>, data: DataConsent) -> bool {
    published(policies, data.policy_id@) matches Some(policy) && policy.sha256 matches Some(hash)
        && hash@ == data.policy_sha256@
}

/// Whether a refusal is the one owed to decisions that are not about a published text.
pub open spec fn is_refusal(
    error: Error,
    policies: Seq<PolicyChange>,
    data: DataConsent,
) -> bool {
    match published(policies, data.policy_id@) {
        None => error == Error::NotFound,
        Some(policy) => match policy.sha256 {
            None => is_failed_validation(error, NO_TEXT@),
            Some(hash) => hash@ != data.policy_sha256@ && is_failed_validation(error, WRONG_TEXT@),
        },
    }
}

/// Whether decisions may be recorded against the policies that there are.
pub fn check_published(policies: Vec<PolicyChange>, data: &DataConsent) -> (result: Result<()>)
    ensures
        result is Ok <==> is_about_published(policies@, *data),
        result matches Err(error) ==> is_refusal(error, policies@, *data),
{
    match find_policy(policies, data.policy_id.as_str()) {
        None => Err(Error::NotFound),
        Some(policy) => match policy.sha256 {
            None => Err(failed_validation(NO_TEXT)),
            Some(hash) => if same(hash.as_str(), data.policy_sha256.as_str()) {
                Ok(())
            } else {
                Err(failed_validation(WRONG_TEXT))
            },
        },
    }
}

/// Whether appending the record of the decision at a place was refused: those before it are
/// kept, none behind it was tried, and the error is one that the store has for this very record.
/// A record that was refused may have been kept all the same.
pub open spec fn refused_at<D: AbstractConsentRecord>(
    before: Consents,
    after: Consents,
    user_id: Seq<char>,
    data: DataConsent,
    place: int,
    ip: Option<String>,
    user_agent: UserAgent,
    error: Error,
) -> bool {
    exists|records: Seq<ConsentRecord>| #[trigger]
        are_records_of(records, user_id, data, data.acks@.take(place + 1), ip, user_agent)
            && D::may_refuse(records.last(), error) && (after == appended(
            before,
            records.drop_last(),
        ) || after == appended(before, records))
}

/// Whether recording decisions that could be recorded was stopped by an error of the store: by
/// the policies that could not be fetched, by a record that was refused, or, with every record
/// kept, by the acknowledgement.
pub open spec fn stopped<D: AbstractConsentRecord>(
    before: Consents,
    after: Consents,
    acknowledged: Acknowledged,
    acknowledged_now: Acknowledged,
    user_id: Seq<char>,
    data: DataConsent,
    ip: Option<String>,
    user_agent: UserAgent,
    error: Error,
) -> bool {
    ||| D::policies_may_answer(error) && after == before && acknowledged_now == acknowledged
    ||| acknowledged_now == acknowledged && exists|place: int|
        0 <= place < data.acks@.len() && #[trigger] refused_at::<D>(
            before,
            after,
            user_id,
            data,
            place,
            ip,
            user_agent,
            error,
        )
    ||| D::policies_may_answer(error) && appends_decisions(
        before,
        after,
        user_id,
        data,
        data.acks@.len() as int,
        ip,
        user_agent,
    )
}

/// Record a member's unbundled consent decisions against a specific policy version, then mark
/// the policy acknowledged.
///
/// One row is written per decision. The policy must exist, and the hash that the client echoes
/// must match what was published. The acknowledgement is stamped only once every row is written:
/// if one fails, the member is asked again, which is recoverable; stamped first, there would be
/// no record behind it.
pub fn record_consent<D: AbstractConsentRecord>(
    db: &mut D,
    user_id: &str,
    data: &DataConsent,
    ip: &Option<String>,
    user_agent: &UserAgent,
) -> (result: Result<()>)
    requires
        old(db).consents_valid(),
    ensures
        final(db).consents_valid(),
        final(db).consents_reliable() == old(db).consents_reliable(),
        final(db).policies_reliable() == old(db).policies_reliable(),
        final(db).policies() == old(db).policies(),
        result is Ok ==> exists|i: int|
            #![trigger old(db).policies()[i]]
            0 <= i < old(db).policies().len() && old(db).policies()[i].id@ == data.policy_id@ && (
            forall|j: int| 0 <= j < i ==> (#[trigger] old(db).policies()[j]).id@ != data.policy_id@)
                && old(db).policies()[i].sha256 is Some && (old(db).policies()[i].sha256->0)@
                == data.policy_sha256@,
        data.acks@.len() == 0 ==> (result matches Err(error) && is_failed_validation(
            error,
            NO_ACKS@,
        )),
        data.acks@.len() != 0 && !is_about_published(old(db).policies(), *data) ==> (
        result matches Err(error) && (is_refusal(error, old(db).policies(), *data) || (
        !old(db).policies_reliable() && D::policies_may_answer(error)))),
        data.acks@.len() == 0 || !is_about_published(old(db).policies(), *data) ==> result is Err
            && final(db).consents() == old(db).consents() && final(db).acknowledged()
            == old(db).acknowledged(),
        data.acks@.len() != 0 && is_about_published(old(db).policies(), *data)
            && old(db).policies_reliable() && old(db).consents_reliable() ==> result is Ok,
        result is Ok ==> final(db).acknowledged() == old(db).acknowledged().insert(user_id@),
        result is Ok || final(db).acknowledged() != old(db).acknowledged() ==> appends_decisions(
            old(db).consents(),
            final(db).consents(),
            user_id@,
            *data,
            data.acks@.len() as int,
            *ip,
            *user_agent,
        ),
        data.acks@.len() != 0 && is_about_published(old(db).policies(), *data) && result is Err
            ==> stopped::<D>(
            old(db).consents(),
            final(db).consents(),
            old(db).acknowledged(),
            final(db).acknowledged(),
            user_id@,
            *data,
            *ip,
            *user_agent,
            result->Err_0,
        ),
{
    if data.acks.len() == 0 {
        return Err(failed_validation(NO_ACKS));
    }
    match db.fetch_policy_changes() {
        Ok(policies) => match check_published(policies, data) {
            Ok(()) => {},
            Err(error) => {
                return Err(error);
            },
        },
        Err(error) => {
            return Err(error);
        },
    }
    proof {
        lemma_published(old(db).policies(), data.policy_id@);
    }
    let now = now_utc();
    let ghost before = *db;
    let ghost mut records: Seq<ConsentRecord> = Seq::empty();
    for i in 0..data.acks.len()
        invariant
            now.normal(),
            db.consents_valid(),
            db.consents_reliable() == before.consents_reliable(),
            db.policies_reliable() == before.policies_reliable(),
            db.policies() == before.policies(),
            db.acknowledged() == before.acknowledged(),
            records.len() == i,
            db.consents() == appended(before.consents(), records),
            forall|j: int|
                0 <= j < i ==> is_ulid((#[trigger] records[j]).id@) && is_record_of(
                    records[j],
                    user_id@,
                    *data,
                    data.acks@[j],
                    now,
                    *ip,
                    *user_agent,
                ),
            // What the function owes when a row cannot be written.
            *old(db) == before,
            data.acks@.len() != 0,
            is_about_published(before.policies(), *data),
    {
        let record = consent_record(
            new_ulid(),
            user_id,
            data,
            &data.acks[i],
            now,
            ip,
            user_agent,
        );
        let ghost longer = records.push(record);
        assert(longer.drop_last() =~= records);
        assert(are_records_of(
            longer,
            user_id@,
            *data,
            data.acks@.take(i + 1),
            *ip,
            *user_agent,
        ));
        match db.insert_consent_record(&record) {
            Ok(()) => {},
            Err(error) => {
                assert(refused_at::<D>(
                    before.consents(),
                    db.consents(),
                    user_id@,
                    *data,
                    i as int,
                    *ip,
                    *user_agent,
                    error,
                ));
                return Err(error);
            },
        }
        proof {
            records = longer;
        }
    }
    assert(data.acks@.take(data.acks@.len() as int) =~= data.acks@);
    assert(are_records_of(
        records,
        user_id@,
        *data,
        data.acks@.take(data.acks@.len() as int),
        *ip,
        *user_agent,
    ));
    db.acknowledge_policy_changes(user_id)
}

/// The decisions that records come to: for each item of the policy, in the order in which
/// they were first decided, what was decided last.
pub open spec fn decided(records: Seq<ConsentRecord>, policy_id: Seq<char>) -> Seq<
    (Seq<char>, bool),
>
    decreases records.len(),
{
    if records.len() == 0 {
        Seq::empty()
    } else {
        let earlier = decided(records.drop_last(), policy_id);
        let record = records.last();
        if record.policy_id@ == policy_id {
            with_decision(earlier, record.ack_key@, record.event == ConsentEvent::Grant)
        } else {
            earlier
        }
    }
}

/// Decisions after one more.
pub open spec fn with_decision(
    decisions: Seq<(Seq<char>, bool)>,
    key: Seq<char>,
    granted: bool,
) -> Seq<(Seq<char>, bool)> {
    if exists|i: int| 0 <= i < decisions.len() && (#[trigger] decisions[i]).0 == key {
        decisions.map_values(
            |decision: (Seq<char>, bool)|
                if decision.0 == key {
                    (key, granted)
                } else {
                    decision
                },
        )
    } else {
        decisions.push((key, granted))
    }
}

/// Whether no item was decided twice.
pub open spec fn decided_once(decisions: Seq<(Seq<char>, bool)>) -> bool {
    forall|i: int, j: int|
        #![trigger decisions[i], decisions[j]]
        0 <= i < j < decisions.len() ==> decisions[i].0 != decisions[j].0
}

/// What acknowledgements say.
pub open spec fn decisions_of(acks: Seq<ConsentAck>) -> Seq<(Seq<char>, bool)> {
    acks.map_values(|ack: ConsentAck| (ack.ack_key@, ack.granted))
}

/// What a record says of its item.
pub open spec fn says(record: ConsentRecord) -> (Seq<char>, bool) {
    (record.ack_key@, record.event == ConsentEvent::Grant)
}

/// Whether a record is the last one about its item under a policy.
pub open spec fn is_last_word(records: Seq<ConsentRecord>, policy_id: Seq<char>, i: int) -> bool {
    &&& 0 <= i < records.len()
    &&& records[i].policy_id@ == policy_id
    &&& forall|j: int|
        #![trigger records[j]]
        i < j < records.len() && records[j].policy_id@ == policy_id ==> records[j].ack_key@
            != records[i].ack_key@
}

proof fn lemma_with_decision(decisions: Seq<(Seq<char>, bool)>, key: Seq<char>, granted: bool)
    requires
        decided_once(decisions),
    ensures
        decided_once(with_decision(decisions, key, granted)),
        with_decision(decisions, key, granted).contains((key, granted)),
        forall|decision: (Seq<char>, bool)|
            decisions.contains(decision) && decision.0 != key ==> #[trigger] with_decision(
                decisions,
                key,
                granted,
            ).contains(decision),
        forall|decision: (Seq<char>, bool)| #[trigger]
            with_decision(decisions, key, granted).contains(decision) ==> decision == (key, granted)
                || decisions.contains(decision),
{
    let result = with_decision(decisions, key, granted);
    if exists|i: int| 0 <= i < decisions.len() && (#[trigger] decisions[i]).0 == key {
        let i = choose|i: int| 0 <= i < decisions.len() && (#[trigger] decisions[i]).0 == key;
        assert(result[i] == (key, granted));
        assert forall|a: int, b: int|
            #![trigger result[a], result[b]]
            0 <= a < b < result.len() implies result[a].0 != result[b].0 by {
            assert(decisions[a].0 != decisions[b].0);
        }
    } else {
        assert(result[decisions.len() as int] == (key, granted));
    }
    assert forall|decision: (Seq<char>, bool)|
        decisions.contains(decision) && decision.0 != key implies #[trigger] result.contains(
        decision,
    ) by {
        let k = decisions.index_of(decision);
        assert(result[k] == decision);
    }
    assert forall|decision: (Seq<char>, bool)| #[trigger]
        result.contains(decision) implies decision == (key, granted) || decisions.contains(
        decision,
    ) by {
        let k = result.index_of(decision);
        if k < decisions.len() && decision != (key, granted) {
            assert(decisions[k] == decision);
        }
    }
}

/// Records come to at most one decision for each item.
pub proof fn law_decided_once(records: Seq<ConsentRecord>, policy_id: Seq<char>)
    ensures
        decided_once(decided(records, policy_id)),
    decreases records.len(),
{
    if records.len() != 0 {
        law_decided_once(records.drop_last(), policy_id);
        lemma_with_decision(
            decided(records.drop_last(), policy_id),
            records.last().ack_key@,
            records.last().event == ConsentEvent::Grant,
        );
    }
}

/// The latest decision on an item wins: a withdrawal after a grant, and a grant after a
/// withdrawal.
pub proof fn law_latest_decision_wins(records: Seq<ConsentRecord>, policy_id: Seq<char>, i: int)
    requires
        is_last_word(records, policy_id, i),
    ensures
        decided(records, policy_id).contains(says(records[i])),
    decreases records.len(),
{
    let rest = records.drop_last();
    let record = records.last();
    law_decided_once(rest, policy_id);
    lemma_with_decision(
        decided(rest, policy_id),
        record.ack_key@,
        record.event == ConsentEvent::Grant,
    );
    if i < rest.len() {
        assert(rest[i] == records[i]);
        assert forall|j: int|
            #![trigger rest[j]]
            i < j < rest.len() && rest[j].policy_id@ == policy_id implies rest[j].ack_key@
            != rest[i].ack_key@ by {
            assert(rest[j] == records[j]);
        }
        law_latest_decision_wins(rest, policy_id, i);
        assert(records[rest.len() as int] == record);
    }
}

/// A decision is always what some record about the policy in question says: records about
/// another policy count for nothing.
pub proof fn law_only_this_policy_counts(
    records: Seq<ConsentRecord>,
    policy_id: Seq<char>,
    decision: (Seq<char>, bool),
)
    requires
        decided(records, policy_id).contains(decision),
    ensures
        exists|i: int|
            #![trigger records[i]]
            0 <= i < records.len() && records[i].policy_id@ == policy_id && says(records[i])
                == decision,
    decreases records.len(),
{
    let rest = records.drop_last();
    let record = records.last();
    law_decided_once(rest, policy_id);
    lemma_with_decision(
        decided(rest, policy_id),
        record.ack_key@,
        record.event == ConsentEvent::Grant,
    );
    if record.policy_id@ == policy_id && decision == says(record) {
        assert(records[rest.len() as int] == record);
    } else {
        assert(decided(rest, policy_id).contains(decision));
        law_only_this_policy_counts(rest, policy_id, decision);
        let i = choose|i: int|
            #![trigger rest[i]]
            0 <= i < rest.len() && rest[i].policy_id@ == policy_id && says(rest[i]) == decision;
        assert(records[i] == rest[i]);
    }
}

/// Note a decision: in place of the earlier one on the item, else behind the others.
fn note_decision(latest: &mut Vec<ConsentAck>, ack_key: String, granted: bool)
    requires
        decided_once(decisions_of(old(latest)@)),
    ensures
        decisions_of(final(latest)@) == with_decision(
            decisions_of(old(latest)@),
            ack_key@,
            granted,
        ),
{
    let ghost before = decisions_of(latest@);
    let count: usize = latest.len();
    for i in 0..count
        invariant
            count == latest@.len(),
            before == decisions_of(latest@),
            decided_once(before),
            latest@ == old(latest)@,
            forall|j: int| 0 <= j < i ==> (#[trigger] before[j]).0 != ack_key@,
    {
        if same(latest[i].ack_key.as_str(), ack_key.as_str()) {
            assert(before[i as int].0 == ack_key@);
            let key = latest[i].ack_key.clone();
            latest.set(i, ConsentAck { ack_key: key, granted });
            proof {
                let after = decisions_of(latest@);
                let expected = with_decision(before, ack_key@, granted);
                assert forall|j: int| 0 <= j < before.len() implies after[j] == expected[j] by {
                    if j > i {
                        assert(before[i as int].0 != before[j].0);
                    }
                }
                assert(after =~= expected);
            }
            return;
        }
        assert(before[i as int] == (latest@[i as int].ack_key@, latest@[i as int].granted));
    }
    latest.push(ConsentAck { ack_key, granted });
    assert(decisions_of(latest@) =~= before.push((ack_key@, granted)));
}

/// What records come to for a policy.
pub fn current_decisions(records: Vec<ConsentRecord>, policy_id: &str) -> (latest: Vec<ConsentAck>)
    ensures
        decisions_of(latest@) == decided(records@, policy_id@),
{
    let ghost all = records@;
    let mut latest: Vec<ConsentAck> = Vec::new();
    assert(all.take(0) =~= Seq::empty());
    assert(decisions_of(latest@) =~= Seq::empty());
    for record in it: records
        invariant
            it.seq() == all,
            decisions_of(latest@) == decided(all.take(it.index()), policy_id@),
    {
        assert(all.take(it.index() + 1).drop_last() =~= all.take(it.index()));
        proof {
            law_decided_once(all.take(it.index()), policy_id@);
        }
        if same(record.policy_id.as_str(), policy_id) {
            let granted = match record.event {
                ConsentEvent::Grant => true,
                ConsentEvent::Withdraw => false,
            };
            note_decision(&mut latest, record.ack_key, granted);
        }
    }
    assert(all.take(all.len() as int) =~= all);
    latest
}

/// Whether a position is the one that a user's records come to for a policy.
pub open spec fn is_position(
    state: ConsentState,
    policy: PolicyChange,
    kept: Map<Seq<char>, ConsentRecord>,
    user_id: Seq<char>,
) -> bool {
    &&& state.policy_id == policy.id
    &&& state.policy_version == policy.version
    &&& exists|records: Seq<ConsentRecord>| #[trigger]
        lists_those(records, kept, made_by(user_id)) && is_sorted(records) && decisions_of(
            state.acks@,
        ) == decided(records, policy.id@)
}

/// The account's current consent position on the policy in force, which is the newest one.
///
/// Derived from the records rather than stored anywhere. Scoped to the current policy: a grant
/// against superseded text is not consent to this text.
pub fn fetch_consent<D: AbstractConsentRecord>(db: &D, user_id: &str) -> (result: Result<
    ConsentState,
>)
    requires
        db.consents_valid(),
    ensures
        db.policies_reliable() && db.policies().len() == 0 ==> result == Err::<
            ConsentState,
            Error,
        >(Error::NotFound),
        db.policies().len() == 0 ==> result is Err,
        db.policies_reliable() && db.consents_reliable() && db.policies().len() != 0 ==> result
            is Ok,
        result matches Err(error) ==> (error == Error::NotFound && db.policies().len() == 0)
            || D::policies_may_answer(error) || D::consents_may_answer(error),
        result matches Ok(state) ==> newest(db.policies()) matches Some(policy) && is_position(
            state,
            policy,
            db.consents(),
            user_id@,
        ),
{
    proof {
        crate::policy::law_newest_policy(db.policies());
    }
    let policies = match db.fetch_policy_changes() {
        Ok(policies) => policies,
        Err(error) => {
            return Err(error);
        },
    };
    let policy = match newest_policy(policies) {
        Some(policy) => policy,
        None => {
            return Err(Error::NotFound);
        },
    };
    let records = match db.fetch_consent_records(user_id) {
        Ok(records) => records,
        Err(error) => {
            return Err(error);
        },
    };
    let ghost listed = records@;
    let acks = current_decisions(records, policy.id.as_str());
    assert(lists_those(listed, db.consents(), made_by(user_id@)));
    Ok(ConsentState { policy_id: policy.id, policy_version: policy.version, acks })
}

/// Records that are appended under ids of their own take nothing away: what was kept is kept
/// as it was, and every one of them is there.
pub proof fn law_consent_is_append_only(
    kept: Map<Seq<char>, ConsentRecord>,
    records: Seq<ConsentRecord>,
)
    requires
        unique_ids(records),
        forall|i: int|
            #![trigger records[i]]
            0 <= i < records.len() ==> !kept.contains_key(records[i].id@),
    ensures
        forall|id: Seq<char>| #[trigger]
            kept.contains_key(id) ==> appended(kept, records).contains_pair(id, kept[id]),
        forall|i: int|
            #![trigger records[i]]
            0 <= i < records.len() ==> appended(kept, records).contains_pair(
                records[i].id@,
                records[i],
            ),
    decreases records.len(),
{
    if records.len() != 0 {
        let rest = records.drop_last();
        let last = records.len() - 1;
        assert forall|i: int, j: int|
            #![trigger rest[i], rest[j]]
            0 <= i < j < rest.len() implies rest[i].id() != rest[j].id() by {
            assert(rest[i] == records[i] && rest[j] == records[j]);
        }
        assert forall|i: int|
            #![trigger rest[i]]
            0 <= i < rest.len() implies !kept.contains_key(rest[i].id@) by {
            assert(rest[i] == records[i]);
        }
        law_consent_is_append_only(kept, rest);
        assert forall|i: int|
            #![trigger records[i]]
            0 <= i < records.len() implies appended(kept, records).contains_pair(
            records[i].id@,
            records[i],
        ) by {
            if i < last {
                assert(rest[i] == records[i]);
                assert(records[i].id() != records[last].id());
            }
        }
        assert(records[last] == records.last());
    }
}

/// Whether a policy of a list is the one that decisions name: the first with its id.
pub open spec fn is_named(policies: Seq<PolicyChange>, data: DataConsent, i: int) -> bool {
    &&& 0 <= i < policies.len()
    &&& policies[i].id@ == data.policy_id@
    &&& forall|j: int| 0 <= j < i ==> (#[trigger] policies[j]).id@ != data.policy_id@
}

/// Decisions may be recorded exactly if the policy that they name was published with a digest of
/// its text, and that digest is, character for character, the one that they give. Each refusal
/// has its reason.
pub proof fn law_consent_is_to_the_published_text(
    policies: Vec<PolicyChange>,
    data: &DataConsent,
    result: Result<()>,
    i: int,
)
    requires
        call_ensures(check_published, (policies, data), result),
    ensures
        (forall|j: int| 0 <= j < policies@.len() ==> (#[trigger] policies@[j]).id@
            != data.policy_id@) ==> result == Err::<(), Error>(Error::NotFound),
        is_named(policies@, *data, i) && policies@[i].sha256 is None ==> {
            &&& result is Err
            &&& result->Err_0 is FailedValidation
            &&& result->Err_0->error@ == "policy has no published sha256; cannot record consent"@
        },
        is_named(policies@, *data, i) && policies@[i].sha256 is Some && (policies@[i].sha256->0)@
            != data.policy_sha256@ ==> {
            &&& result is Err
            &&& result->Err_0 is FailedValidation
            &&& result->Err_0->error@ == "policy_sha256 does not match the published policy"@
        },
        is_named(policies@, *data, i) && policies@[i].sha256 is Some && (policies@[i].sha256->0)@
            == data.policy_sha256@ ==> result is Ok,
{
    lemma_published(policies@, data.policy_id@);
    lemma_no_published(policies@, data.policy_id@, i);
}

proof fn lemma_no_published(policies: Seq<PolicyChange>, id: Seq<char>, i: int)
    ensures
        0 <= i < policies.len() && policies[i].id@ == id && (forall|j: int|
            0 <= j < i ==> (#[trigger] policies[j]).id@ != id) ==> published(policies, id) == Some(
            policies[i],
        ),
{
    lemma_published(policies, id);
}

/// Where the policy named is not there, has no digest or has another one, and where no decision
/// is given, recording ends with an error and neither a record nor an acknowledgement is added.
/// With a store that does not fail the error is the one that says why.
pub proof fn law_other_consent_leaves_no_trace<D: AbstractConsentRecord>(
    db: &mut D,
    user_id: &str,
    data: &DataConsent,
    ip: &Option<String>,
    user_agent: &UserAgent,
    result: Result<()>,
    i: int,
)
    requires
        old(db).consents_valid(),
        call_ensures(record_consent::<D>, (db, user_id, data, ip, user_agent), result),
    ensures
        data.acks@.len() == 0 || (forall|j: int|
            0 <= j < old(db).policies().len() ==> (#[trigger] old(db).policies()[j]).id@
                != data.policy_id@) || (is_named(old(db).policies(), *data, i) && !(
        old(db).policies()[i].sha256 is Some && (old(db).policies()[i].sha256->0)@
            == data.policy_sha256@)) ==> result is Err && final(db).consents() == old(db).consents()
            && final(db).acknowledged() == old(db).acknowledged(),
        data.acks@.len() == 0 ==> result->Err_0 is FailedValidation && result->Err_0->error@
            == "no acknowledgements supplied"@,
        data.acks@.len() != 0 && old(db).policies_reliable() && (forall|j: int|
            0 <= j < old(db).policies().len() ==> (#[trigger] old(db).policies()[j]).id@
                != data.policy_id@) ==> result == Err::<(), Error>(Error::NotFound),
        data.acks@.len() != 0 && old(db).policies_reliable() && is_named(
            old(db).policies(),
            *data,
            i,
        ) && old(db).policies()[i].sha256 is None ==> result->Err_0 is FailedValidation
            && result->Err_0->error@ == "policy has no published sha256; cannot record consent"@,
        data.acks@.len() != 0 && old(db).policies_reliable() && is_named(
            old(db).policies(),
            *data,
            i,
        ) && old(db).policies()[i].sha256 is Some && (old(db).policies()[i].sha256->0)@
            != data.policy_sha256@ ==> result->Err_0 is FailedValidation && result->Err_0->error@
            == "policy_sha256 does not match the published policy"@,
        data.acks@.len() != 0 && old(db).policies_reliable() && old(db).consents_reliable()
            && is_named(old(db).policies(), *data, i) && old(db).policies()[i].sha256 is Some && (
        old(db).policies()[i].sha256->0)@ == data.policy_sha256@ ==> result is Ok,
{
    lemma_published(old(db).policies(), data.policy_id@);
    lemma_no_published(old(db).policies(), data.policy_id@, i);
}

/// The record of a decision says who decided, whether consent was given, on what, when and from
/// where; a surface that is neither of those known is taken for the interface itself.
pub proof fn law_record_says_what_was_decided(
    id: String,
    user_id: &str,
    data: &DataConsent,
    ack: &ConsentAck,
    now: Timestamp,
    ip: &Option<String>,
    user_agent: &UserAgent,
    record: ConsentRecord,
)
    requires
        call_ensures(consent_record, (id, user_id, data, ack, now, ip, user_agent), record),
    ensures
        record.id@ == id@,
        record.user_id@ == user_id@,
        record.event is Grant <==> ack.granted,
        record.utc_timestamp == now,
        record.policy_id@ == data.policy_id@,
        record.policy_version@ == data.policy_version@,
        record.policy_sha256@ == data.policy_sha256@,
        record.ack_key@ == ack.ack_key@,
        record.client is Android <==> data.client is Some && (data.client->0)@ == "android"@,
        record.client is Web <==> data.client is Some && (data.client->0)@ == "web"@,
        record.ip == *ip,
        record.user_agent == user_agent.0,
{
    reveal_strlit("android");
    reveal_strlit("web");
    assert("android"@.len() != "web"@.len());
}

/// Whether a record is of one of a user's decisions, as far as the decision goes.
pub open spec fn keeps_decision(
    record: ConsentRecord,
    user_id: Seq<char>,
    data: DataConsent,
    k: int,
    now: Timestamp,
    ip: Option<String>,
    user_agent: UserAgent,
) -> bool {
    &&& record.user_id@ == user_id
    &&& record.event is Grant <==> data.acks@[k].granted
    &&& record.utc_timestamp == now
    &&& record.policy_id@ == data.policy_id@
    &&& record.policy_version@ == data.policy_version@
    &&& record.policy_sha256@ == data.policy_sha256@
    &&& record.ack_key@ == data.acks@[k].ack_key@
    &&& record.client is Android <==> data.client is Some && (data.client->0)@ == "android"@
    &&& record.client is Web <==> data.client is Some && (data.client->0)@ == "web"@
    &&& record.ip == ip
    &&& record.user_agent == user_agent.0
}

/// Whether what is kept now is what was kept before with records put under their ids, later ones
/// over earlier ones.
pub open spec fn is_with(before: Consents, after: Consents, records: Seq<ConsentRecord>) -> bool {
    &&& forall|id: Seq<char>| #[trigger]
        after.contains_key(id) <==> before.contains_key(id) || exists|k: int|
            0 <= k < records.len() && (#[trigger] records[k]).id@ == id
    &&& forall|id: Seq<char>|
        #![trigger after[id]]
        before.contains_key(id) && (forall|k: int|
            0 <= k < records.len() ==> (#[trigger] records[k]).id@ != id) ==> after[id]
            == before[id]
    &&& forall|k: int|
        #![trigger records[k]]
        0 <= k < records.len() && (forall|j: int|
            k < j < records.len() ==> (#[trigger] records[j]).id@ != records[k].id@)
            ==> after[records[k].id@] == records[k]
}

proof fn lemma_appended_elsewhere(before: Consents, records: Seq<ConsentRecord>, id: Seq<char>)
    requires
        forall|k: int| 0 <= k < records.len() ==> (#[trigger] records[k]).id@ != id,
    ensures
        appended(before, records).contains_key(id) <==> before.contains_key(id),
        appended(before, records)[id] == before[id],
    decreases records.len(),
{
    if records.len() != 0 {
        let rest = records.drop_last();
        assert(records[records.len() - 1].id@ != id);
        assert forall|k: int| 0 <= k < rest.len() implies (#[trigger] rest[k]).id@ != id by {
            assert(records[k] == rest[k]);
        }
        lemma_appended_elsewhere(before, rest, id);
    }
}

proof fn lemma_appended_there(before: Consents, records: Seq<ConsentRecord>, k: int)
    requires
        0 <= k < records.len(),
    ensures
        appended(before, records).contains_key(records[k].id@),
        (forall|j: int| k < j < records.len() ==> (#[trigger] records[j]).id@ != records[k].id@)
            ==> appended(before, records)[records[k].id@] == records[k],
    decreases records.len(),
{
    let rest = records.drop_last();
    if k < rest.len() {
        assert(rest[k] == records[k]);
        lemma_appended_there(before, rest, k);
        if forall|j: int| k < j < records.len() ==> (#[trigger] records[j]).id@ != records[k].id@ {
            assert(records[rest.len() as int].id@ != records[k].id@);
            assert forall|j: int| k < j < rest.len() implies (#[trigger] rest[j]).id@
                != rest[k].id@ by {
                assert(records[j] == rest[j]);
            }
        }
    }
}

proof fn lemma_appended(before: Consents, records: Seq<ConsentRecord>)
    ensures
        is_with(before, appended(before, records), records),
{
    let after = appended(before, records);
    assert forall|id: Seq<char>| #[trigger]
        after.contains_key(id) <==> before.contains_key(id) || exists|k: int|
            0 <= k < records.len() && (#[trigger] records[k]).id@ == id by {
        if exists|k: int| 0 <= k < records.len() && (#[trigger] records[k]).id@ == id {
            let k = choose|k: int| 0 <= k < records.len() && (#[trigger] records[k]).id@ == id;
            lemma_appended_there(before, records, k);
        } else {
            lemma_appended_elsewhere(before, records, id);
        }
    }
    assert forall|id: Seq<char>|
        #![trigger after[id]]
        before.contains_key(id) && (forall|k: int|
            0 <= k < records.len() ==> (#[trigger] records[k]).id@ != id) implies after[id]
        == before[id] by {
        lemma_appended_elsewhere(before, records, id);
    }
    assert forall|k: int|
        #![trigger records[k]]
        0 <= k < records.len() && (forall|j: int|
            k < j < records.len() ==> (#[trigger] records[j]).id@
                != records[k].id@) implies after[records[k].id@] == records[k] by {
        lemma_appended_there(before, records, k);
    }
}

/// Where decisions were recorded, one record was appended for each of them, all at one time, and
/// then the user was noted to have acknowledged the policies.
pub proof fn law_every_decision_is_recorded<D: AbstractConsentRecord>(
    db: &mut D,
    user_id: &str,
    data: &DataConsent,
    ip: &Option<String>,
    user_agent: &UserAgent,
    result: Result<()>,
)
    requires
        old(db).consents_valid(),
        call_ensures(record_consent::<D>, (db, user_id, data, ip, user_agent), result),
        result is Ok || final(db).acknowledged() != old(db).acknowledged(),
    ensures
        result is Ok ==> final(db).acknowledged() == old(db).acknowledged().insert(user_id@),
        exists|records: Seq<ConsentRecord>, now: Timestamp|
            {
                &&& #[trigger] is_with(old(db).consents(), final(db).consents(), records)
                &&& #[trigger] now.normal()
                &&& records.len() == data.acks@.len()
                &&& forall|k: int|
                    0 <= k < records.len() ==> keeps_decision(
                        #[trigger] records[k],
                        user_id@,
                        *data,
                        k,
                        now,
                        *ip,
                        *user_agent,
                    )
            },
{
    reveal_strlit("android");
    reveal_strlit("web");
    assert("android"@.len() != "web"@.len());
    let count = data.acks@.len() as int;
    assert(data.acks@.take(count) =~= data.acks@);
    let records = choose|records: Seq<ConsentRecord>| #[trigger]
        are_records_of(records, user_id@, *data, data.acks@.take(count), *ip, *user_agent)
            && final(db).consents() == appended(old(db).consents(), records);
    let now = choose|now: Timestamp| #[trigger]
        now.normal() && forall|i: int|
            0 <= i < records.len() ==> is_ulid((#[trigger] records[i]).id@) && is_record_of(
                records[i],
                user_id@,
                *data,
                data.acks@[i],
                now,
                *ip,
                *user_agent,
            );
    lemma_appended(old(db).consents(), records);
    assert(is_with(old(db).consents(), final(db).consents(), records));
    assert(now.normal());
    assert forall|k: int| 0 <= k < records.len() implies keeps_decision(
        #[trigger] records[k],
        user_id@,
        *data,
        k,
        now,
        *ip,
        *user_agent,
    ) by {
        assert(is_record_of(records[k], user_id@, *data, data.acks@[k], now, *ip, *user_agent));
    }
}

proof fn lemma_last_word(
    records: Seq<ConsentRecord>,
    policy_id: Seq<char>,
    key: Seq<char>,
    from: int,
) -> (last: int)
    requires
        0 <= from < records.len(),
        records[from].policy_id@ == policy_id,
        records[from].ack_key@ == key,
    ensures
        is_last_word(records, policy_id, last),
        records[last].ack_key@ == key,
        from <= last,
    decreases records.len() - from,
{
    if is_last_word(records, policy_id, from) {
        from
    } else {
        let later = choose|j: int|
            #![trigger records[j]]
            from < j < records.len() && records[j].policy_id@ == policy_id && records[j].ack_key@
                == records[from].ack_key@;
        lemma_last_word(records, policy_id, key, later)
    }
}

proof fn lemma_decision_is_last_word(
    records: Seq<ConsentRecord>,
    policy_id: Seq<char>,
    k: int,
) -> (last: int)
    requires
        0 <= k < decided(records, policy_id).len(),
    ensures
        is_last_word(records, policy_id, last),
        says(records[last]) == decided(records, policy_id)[k],
{
    let all = decided(records, policy_id);
    assert(all.contains(all[k]));
    law_only_this_policy_counts(records, policy_id, all[k]);
    let i = choose|i: int|
        #![trigger records[i]]
        0 <= i < records.len() && records[i].policy_id@ == policy_id && says(records[i]) == all[k];
    let last = lemma_last_word(records, policy_id, all[k].0, i);
    law_latest_decision_wins(records, policy_id, last);
    law_decided_once(records, policy_id);
    let other = all.index_of(says(records[last]));
    assert(all[other].0 == all[k].0);
    last
}

/// The decision on an item is what the last record about it under the policy says, and no item has
/// two.
pub proof fn law_last_record_of_an_item_decides(
    records: Vec<ConsentRecord>,
    policy_id: &str,
    latest: Vec<ConsentAck>,
    k: int,
    j: int,
)
    requires
        call_ensures(current_decisions, (records, policy_id), latest),
        0 <= k < latest@.len(),
    ensures
        0 <= j < k ==> latest@[j].ack_key@ != latest@[k].ack_key@,
        exists|last: int|
            #![trigger records@[last]]
            {
                &&& 0 <= last < records@.len()
                &&& records@[last].policy_id@ == policy_id@
                &&& records@[last].ack_key@ == latest@[k].ack_key@
                &&& records@[last].event is Grant <==> latest@[k].granted
                &&& forall|later: int|
                    last < later < records@.len() ==> (#[trigger] records@[later]).policy_id@
                        != policy_id@ || records@[later].ack_key@ != latest@[k].ack_key@
            },
{
    let all = decided(records@, policy_id@);
    assert(decisions_of(latest@).len() == latest@.len());
    assert(all[k] == (latest@[k].ack_key@, latest@[k].granted));
    law_decided_once(records@, policy_id@);
    if 0 <= j < k {
        assert(all[j] == (latest@[j].ack_key@, latest@[j].granted));
    }
    let last = lemma_decision_is_last_word(records@, policy_id@, k);
    assert(says(records@[last]) == all[k]);
}

/// Every item that a record is about, under the policy, has its decision.
pub proof fn law_every_item_is_decided(
    records: Vec<ConsentRecord>,
    policy_id: &str,
    latest: Vec<ConsentAck>,
    i: int,
)
    requires
        call_ensures(current_decisions, (records, policy_id), latest),
        0 <= i < records@.len(),
        records@[i].policy_id@ == policy_id@,
    ensures
        exists|k: int|
            0 <= k < latest@.len() && (#[trigger] latest@[k]).ack_key@ == records@[i].ack_key@,
{
    let all = decided(records@, policy_id@);
    let last = lemma_last_word(records@, policy_id@, records@[i].ack_key@, i);
    law_latest_decision_wins(records@, policy_id@, last);
    let k = all.index_of(says(records@[last]));
    assert(decisions_of(latest@)[k] == (latest@[k].ack_key@, latest@[k].granted));
}

proof fn lemma_decided_order(
    records: Seq<ConsentRecord>,
    policy_id: Seq<char>,
    a: int,
    b: int,
    at: int,
)
    requires
        0 <= a < b < decided(records, policy_id).len(),
        0 <= at < records.len(),
        records[at].policy_id@ == policy_id,
        records[at].ack_key@ == decided(records, policy_id)[b].0,
    ensures
        exists|earlier: int|
            0 <= earlier < at && (#[trigger] records[earlier]).policy_id@ == policy_id
                && records[earlier].ack_key@ == decided(records, policy_id)[a].0,
    decreases records.len(),
{
    let all = decided(records, policy_id);
    let rest = records.drop_last();
    let most = decided(rest, policy_id);
    let record = records.last();
    law_decided_once(rest, policy_id);
    assert(records[rest.len() as int] == record);
    assert(forall|i: int| 0 <= i < most.len() ==> (#[trigger] all[i]).0 == most[i].0);
    assert(most.len() <= all.len() <= most.len() + 1);
    assert(a < most.len());
    if at < rest.len() {
        assert(rest[at] == records[at]);
        if b < most.len() {
            lemma_decided_order(rest, policy_id, a, b, at);
            let earlier = choose|earlier: int|
                0 <= earlier < at && (#[trigger] rest[earlier]).policy_id@ == policy_id
                    && rest[earlier].ack_key@ == most[a].0;
            assert(records[earlier] == rest[earlier]);
        } else {
            let last = lemma_last_word(rest, policy_id, record.ack_key@, at);
            law_latest_decision_wins(rest, policy_id, last);
            let k = most.index_of(says(rest[last]));
            assert(most[k].0 == record.ack_key@);
        }
    } else {
        assert(most.contains(most[a]));
        law_only_this_policy_counts(rest, policy_id, most[a]);
        let earlier = choose|i: int|
            #![trigger rest[i]]
            0 <= i < rest.len() && rest[i].policy_id@ == policy_id && says(rest[i]) == most[a];
        assert(records[earlier] == rest[earlier]);
    }
}

/// Decisions stand in the order in which the items were first decided on.
pub proof fn law_items_keep_their_order(
    records: Vec<ConsentRecord>,
    policy_id: &str,
    latest: Vec<ConsentAck>,
    a: int,
    b: int,
    at: int,
)
    requires
        call_ensures(current_decisions, (records, policy_id), latest),
        0 <= a < b < latest@.len(),
        0 <= at < records@.len(),
        records@[at].policy_id@ == policy_id@,
        records@[at].ack_key@ == latest@[b].ack_key@,
    ensures
        exists|earlier: int|
            0 <= earlier < at && (#[trigger] records@[earlier]).policy_id@ == policy_id@
                && records@[earlier].ack_key@ == latest@[a].ack_key@,
{
    let said = decisions_of(latest@);
    assert(said[a] == (latest@[a].ack_key@, latest@[a].granted));
    assert(said[b] == (latest@[b].ack_key@, latest@[b].granted));
    lemma_decided_order(records@, policy_id@, a, b, at);
}

/// The position of a user is measured against the policy in force. Each of its decisions is what
/// one of the user's records says that is about that policy and the item, and that no other such
/// record is later than.
pub proof fn law_position_is_the_latest_word<D: AbstractConsentRecord>(
    db: &D,
    user_id: &str,
    state: ConsentState,
    i: int,
    k: int,
)
    requires
        db.consents_valid(),
        call_ensures(fetch_consent::<D>, (db, user_id), Ok(state)),
        is_in_force(db.policies(), i),
    ensures
        state.policy_id@ == db.policies()[i].id@,
        state.policy_version == db.policies()[i].version,
        0 <= k < state.acks@.len() ==> exists|id: Seq<char>| #[trigger]
            db.consents().contains_key(id) && ({
                let record = db.consents()[id];
                &&& record.user_id@ == user_id@
                &&& record.policy_id@ == db.policies()[i].id@
                &&& record.ack_key@ == state.acks@[k].ack_key@
                &&& record.event is Grant <==> state.acks@[k].granted
                &&& forall|other: Seq<char>| #[trigger]
                    db.consents().contains_key(other) && db.consents()[other].user_id@ == user_id@
                        && db.consents()[other].policy_id@ == db.policies()[i].id@
                        && db.consents()[other].ack_key@ == state.acks@[k].ack_key@ ==> (
                    db.consents()[other].utc_timestamp.seconds < record.utc_timestamp.seconds || (
                    db.consents()[other].utc_timestamp.seconds == record.utc_timestamp.seconds
                        && db.consents()[other].utc_timestamp.nanoseconds
                        <= record.utc_timestamp.nanoseconds))
            }),
{
    let policy = db.policies()[i];
    lemma_in_force(db.policies(), i);
    let records = choose|records: Seq<ConsentRecord>| #[trigger]
        lists_those(records, db.consents(), made_by(user_id@)) && is_sorted(records)
            && decisions_of(state.acks@) == decided(records, policy.id@);
    if 0 <= k < state.acks@.len() {
        let said = decisions_of(state.acks@);
        assert(said[k] == (state.acks@[k].ack_key@, state.acks@[k].granted));
        let last = lemma_decision_is_last_word(records, policy.id@, k);
        let record = records[last];
        assert(db.consents().contains_pair(record.id(), record));
        let id = record.id@;
        assert(db.consents().contains_key(id));
        assert(says(record) == said[k]);
        assert(made_by(user_id@)(record));
        assert forall|other: Seq<char>| #[trigger]
            db.consents().contains_key(other) && db.consents()[other].user_id@ == user_id@
                && db.consents()[other].policy_id@ == db.policies()[i].id@
                && db.consents()[other].ack_key@ == state.acks@[k].ack_key@ implies (
        db.consents()[other].utc_timestamp.seconds < record.utc_timestamp.seconds || (
        db.consents()[other].utc_timestamp.seconds == record.utc_timestamp.seconds
            && db.consents()[other].utc_timestamp.nanoseconds
            <= record.utc_timestamp.nanoseconds)) by {
            let one = db.consents()[other];
            assert(made_by(user_id@)(one));
            assert(records.contains(one));
            let j = records.index_of(one);
            assert(records[j] == one);
            if j < last {
                assert(!records[last].precedes(&records[j]));
            }
        }
    }
}

/// The position of a user says something of every item that one of the user's records about the
/// policy in force is about, and of each once.
pub proof fn law_position_is_complete<D: AbstractConsentRecord>(
    db: &D,
    user_id: &str,
    state: ConsentState,
    i: int,
    id: Seq<char>,
    a: int,
    b: int,
)
    requires
        db.consents_valid(),
        call_ensures(fetch_consent::<D>, (db, user_id), Ok(state)),
        is_in_force(db.policies(), i),
    ensures
        db.consents().contains_key(id) && db.consents()[id].user_id@ == user_id@
            && db.consents()[id].policy_id@ == db.policies()[i].id@ ==> exists|k: int|
            0 <= k < state.acks@.len() && (#[trigger] state.acks@[k]).ack_key@
                == db.consents()[id].ack_key@,
        0 <= a < b < state.acks@.len() ==> state.acks@[a].ack_key@ != state.acks@[b].ack_key@,
{
    let policy = db.policies()[i];
    lemma_in_force(db.policies(), i);
    let records = choose|records: Seq<ConsentRecord>| #[trigger]
        lists_those(records, db.consents(), made_by(user_id@)) && is_sorted(records)
            && decisions_of(state.acks@) == decided(records, policy.id@);
    let said = decisions_of(state.acks@);
    law_decided_once(records, policy.id@);
    if 0 <= a < b < state.acks@.len() {
        assert(said[a] == (state.acks@[a].ack_key@, state.acks@[a].granted));
        assert(said[b] == (state.acks@[b].ack_key@, state.acks@[b].granted));
    }
    if db.consents().contains_key(id) && db.consents()[id].user_id@ == user_id@
        && db.consents()[id].policy_id@ == policy.id@ {
        let one = db.consents()[id];
        assert(made_by(user_id@)(one));
        let j = records.index_of(one);
        let last = lemma_last_word(records, policy.id@, one.ack_key@, j);
        law_latest_decision_wins(records, policy.id@, last);
        let k = said.index_of(says(records[last]));
        assert(said[k] == (state.acks@[k].ack_key@, state.acks@[k].granted));
    }
}

/// Without any policy nobody has a position, and that is what the answer says unless the store
/// failed; with one, a store that does not fail answers.
pub proof fn law_no_policy_no_position<D: AbstractConsentRecord>(
    db: &D,
    user_id: &str,
    result: Result<ConsentState>,
)
    requires
        db.consents_valid(),
        call_ensures(fetch_consent::<D>, (db, user_id), result),
    ensures
        db.policies().len() == 0 ==> result is Err,
        db.policies().len() == 0 && db.policies_reliable() ==> result->Err_0 is NotFound,
        db.policies().len() != 0 && db.policies_reliable() && db.consents_reliable() ==> result
            is Ok,
{
}

/// Of two records the one made earlier comes first.
pub proof fn law_records_go_by_time(one: &ConsentRecord, other: &ConsentRecord, result: bool)
    requires
        call_ensures(<ConsentRecord as Ordered>::comes_before, (one, other), result),
    ensures
        result <==> one.utc_timestamp.seconds < other.utc_timestamp.seconds || (
        one.utc_timestamp.seconds == other.utc_timestamp.seconds && one.utc_timestamp.nanoseconds
            < other.utc_timestamp.nanoseconds),
{
}

} // verus!
