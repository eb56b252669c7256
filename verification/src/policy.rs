use vstd::prelude::*;

use crate::clock::{epoch_of_unix, Timestamp};
use crate::consent::ConsentRecord;
use crate::error::{Error, Result};
use crate::reference::ReferenceDb;
use crate::text::{copy_of, same, texts};

verus! {

/// How long a cached answer is trusted, in nanoseconds.
///
/// Permissions are calculated on effectively every request, so this cannot ask the database
/// each time. Policies almost never change; the worst case is that a member keeps access for
/// this long after a new one is published.
pub const TTL: u64 = 30_000_000_000;

/// A change of the platform's policy.
#[derive(Debug, PartialEq, Eq)]
pub struct PolicyChange {
    /// Unique Id
    pub id: String,
    /// Time at which this policy was created
    pub created_time: Timestamp,
    /// Time at which this policy is effective
    pub effective_time: Timestamp,
    /// Message shown to users
    pub description: String,
    /// URL with details about changes
    pub url: String,
    /// Human-readable version of the policy text
    pub version: Option<String>,
    /// SHA-256 of the exact document body this policy refers to
    pub sha256: Option<String>,
}

impl Clone for PolicyChange {
    fn clone(&self) -> (copy: Self)
        ensures
            copy == *self,
    {
        PolicyChange {
            id: self.id.clone(),
            created_time: self.created_time,
            effective_time: self.effective_time,
            description: self.description.clone(),
            url: self.url.clone(),
            version: copy_of(&self.version),
            sha256: copy_of(&self.sha256),
        }
    }
}

/// The policy changes that are kept, in the order in which they are fetched.
pub type Policies = Seq<PolicyChange>;

/// The users that have acknowledged the policies.
pub type Acknowledged = Set<Seq<char>>;

/// Consent records, by their ids.
pub type Consents = Map<Seq<char>, ConsentRecord>;

/// Where policy changes are kept, and who has acknowledged them.
pub trait AbstractPolicyChange {
    /// Whether no operation on policies fails.
    spec fn policies_reliable(&self) -> bool;

    /// The policy changes.
    spec fn policies(&self) -> Policies;

    /// The users that have acknowledged the policies.
    spec fn acknowledged(&self) -> Acknowledged;

    /// The consent records that lie beside them, by their ids.
    spec fn consents(&self) -> Consents;

    /// Whether every consent record is found by its own id.
    spec fn consents_valid(&self) -> bool;

    /// Whether no operation on consent records fails.
    spec fn consents_reliable(&self) -> bool;

    /// Whether an operation on policies may end with an error.
    spec fn policies_may_answer(error: Error) -> bool;

    /// Fetch all policy changes.
    fn fetch_policy_changes(&self) -> (result: Result<Vec<PolicyChange>>)
        ensures
            self.policies_reliable() ==> result is Ok,
            result matches Ok(list) ==> list@ == self.policies(),
            result matches Err(error) ==> Self::policies_may_answer(error),
    ;

    /// Note that a user has acknowledged the policies.
    fn acknowledge_policy_changes(&mut self, user_id: &str) -> (result: Result<()>)
        ensures
            final(self).policies() == old(self).policies(),
            final(self).consents() == old(self).consents(),
            final(self).consents_valid() == old(self).consents_valid(),
            final(self).consents_reliable() == old(self).consents_reliable(),
            final(self).policies_reliable() == old(self).policies_reliable(),
            old(self).policies_reliable() ==> result is Ok,
            result matches Err(error) ==> Self::policies_may_answer(error),
            result is Ok ==> final(self).acknowledged() == old(self).acknowledged().insert(
                user_id@,
            ),
            result is Err ==> final(self).acknowledged() == old(self).acknowledged()
                || final(self).acknowledged() == old(self).acknowledged().insert(user_id@),
    ;
}

impl AbstractPolicyChange for ReferenceDb {
    open spec fn policies_reliable(&self) -> bool {
        true
    }

    open spec fn policies(&self) -> Policies {
        self.policy_changes@
    }

    open spec fn acknowledged(&self) -> Acknowledged {
        texts(self.acknowledgements@).to_set()
    }

    open spec fn consents(&self) -> Consents {
        self.consent_records@
    }

    open spec fn consents_valid(&self) -> bool {
        self.consent_records.wf()
    }

    open spec fn consents_reliable(&self) -> bool {
        true
    }

    open spec fn policies_may_answer(error: Error) -> bool {
        false
    }

    fn fetch_policy_changes(&self) -> (result: Result<Vec<PolicyChange>>) {
        let mut list: Vec<PolicyChange> = Vec::new();
        for i in 0..self.policy_changes.len()
            invariant
                list@ == self.policy_changes@.take(i as int),
        {
            list.push(self.policy_changes[i].clone());
        }
        assert(list@ =~= self.policy_changes@);
        Ok(list)
    }

    fn acknowledge_policy_changes(&mut self, user_id: &str) -> (result: Result<()>) {
        let ghost before = texts(self.acknowledgements@);
        self.acknowledgements.push(user_id.to_owned());
        proof {
            let after = texts(self.acknowledgements@);
            assert(after =~= before.push(user_id@));
            assert(after.to_set() =~= before.to_set().insert(user_id@)) by {
                assert forall|id: Seq<char>| #[trigger] after.contains(id) <==> before.contains(id)
                    || id == user_id@ by {
                    if before.contains(id) {
                        let i = before.index_of(id);
                        assert(after[i] == id);
                    }
                    assert(after[before.len() as int] == user_id@);
                }
            }
        }
        Ok(())
    }
}

/// The policy with an id, none if it was not published.
pub open spec fn published(policies: Seq<PolicyChange>, id: Seq<char>) -> Option<PolicyChange>
    decreases policies.len(),
{
    if policies.len() == 0 {
        None
    } else if policies[0].id@ == id {
        Some(policies[0])
    } else {
        published(policies.drop_first(), id)
    }
}

/// The policy with an id.
pub fn find_policy(policies: Vec<PolicyChange>, id: &str) -> (result: Option<PolicyChange>)
    ensures
        result == published(policies@, id@),
{
    let ghost all = policies@;
    assert(all.skip(0) =~= all);
    for policy in it: policies
        invariant
            it.seq() == all,
            published(all, id@) == published(all.skip(it.index()), id@),
    {
        let ghost rest = all.skip(it.index());
        assert(rest[0] == policy);
        assert(rest.drop_first() =~= all.skip(it.index() + 1));
        if same(policy.id.as_str(), id) {
            return Some(policy);
        }
    }
    assert(all.skip(all.len() as int) =~= Seq::empty());
    None
}

/// The newest policy, by the time that it was created at; of several the one listed last.
pub open spec fn newest(policies: Seq<PolicyChange>) -> Option<PolicyChange>
    decreases policies.len(),
{
    if policies.len() == 0 {
        None
    } else {
        match newest(policies.drop_last()) {
            Some(best) => if policies.last().created_time.earlier_than(best.created_time) {
                Some(best)
            } else {
                Some(policies.last())
            },
            None => Some(policies.last()),
        }
    }
}

/// There is a newest policy exactly if there is one at all; it is one of them, and none was
/// created after it.
pub proof fn law_newest_policy(policies: Seq<PolicyChange>)
    ensures
        newest(policies) is None <==> policies.len() == 0,
        newest(policies) matches Some(best) ==> policies.contains(best) && forall|i: int|
            0 <= i < policies.len() ==> !best.created_time.earlier_than(
                (#[trigger] policies[i]).created_time,
            ),
    decreases policies.len(),
{
    if policies.len() != 0 {
        let rest = policies.drop_last();
        law_newest_policy(rest);
        let last = policies.len() - 1;
        assert(policies[last] == policies.last());
        let best = newest(policies)->0;
        if newest(rest) is Some && best == newest(rest)->0 {
            let i = rest.index_of(best);
            assert(policies[i] == best);
        }
        assert forall|i: int| 0 <= i < policies.len() implies !best.created_time.earlier_than(
            (#[trigger] policies[i]).created_time,
        ) by {
            if i < last {
                assert(rest[i] == policies[i]);
            }
        }
    }
}

/// The newest policy of a list.
pub fn newest_policy(policies: Vec<PolicyChange>) -> (result: Option<PolicyChange>)
    ensures
        result == newest(policies@),
{
    let ghost all = policies@;
    let mut best: Option<PolicyChange> = None;
    assert(all.take(0) =~= Seq::empty());
    for policy in it: policies
        invariant
            it.seq() == all,
            best == newest(all.take(it.index())),
    {
        assert(all.take(it.index() + 1).drop_last() =~= all.take(it.index()));
        best = match best {
            Some(earlier) => if policy.created_time.is_before(earlier.created_time) {
                Some(earlier)
            } else {
                Some(policy)
            },
            None => Some(policy),
        };
    }
    assert(all.take(all.len() as int) =~= all);
    best
}

/// When the newest policy was created; the beginning of 1970 if there is none.
pub open spec fn latest_change(policies: Seq<PolicyChange>) -> Timestamp {
    match newest(policies) {
        Some(policy) => policy.created_time,
        None => epoch_of_unix(),
    }
}

/// What is taken for the latest change when the database answered so: if it failed, none is
/// known, and everyone is let through rather than locked out by one query.
pub open spec fn latest_answered(answer: Result<Vec<PolicyChange>>) -> Timestamp {
    match answer {
        Ok(policies) => latest_change(policies@),
        Err(_) => epoch_of_unix(),
    }
}

/// The latest change, as the database answered last.
#[derive(Debug, PartialEq, Eq)]
pub struct PolicyCache {
    /// When it answered, on a clock that never goes back, in nanoseconds; and the answer
    pub entry: Option<(u64, Timestamp)>,
}

/// The answer of a cache that is still trusted.
pub open spec fn trusted(cache: PolicyCache, now: u64) -> Option<Timestamp> {
    match cache.entry {
        Some((fetched_at, value)) => if now - fetched_at < TTL {
            Some(value)
        } else {
            None
        },
        None => None,
    }
}

impl PolicyCache {
    /// A cache that knows nothing.
    pub fn new() -> (cache: PolicyCache)
        ensures
            cache.entry is None,
    {
        PolicyCache { entry: None }
    }

    /// The answer, if it is still trusted.
    pub fn fresh(&self, now: u64) -> (result: Option<Timestamp>)
        ensures
            result == trusted(*self, now),
    {
        match self.entry {
            Some((fetched_at, value)) => {
                let elapsed: u64 = if now >= fetched_at {
                    now - fetched_at
                } else {
                    0
                };
                if elapsed < TTL {
                    Some(value)
                } else {
                    None
                }
            },
            None => None,
        }
    }

    /// Take up what the database answered.
    pub fn renew(&mut self, now: u64, answer: Result<Vec<PolicyChange>>) -> (latest: Timestamp)
        ensures
            latest == latest_answered(answer),
            final(self).entry == Some((now, latest)),
    {
        let latest = match answer {
            Ok(policies) => match newest_policy(policies) {
                Some(policy) => policy.created_time,
                None => Timestamp::unix_epoch(),
            },
            Err(_) => Timestamp::unix_epoch(),
        };
        self.entry = Some((now, latest));
        latest
    }
}

/// Creation time of the most recent policy change, or the epoch if there are none, from the
/// cache where that is still trusted.
pub fn latest_policy_change_time<D: AbstractPolicyChange>(
    db: &D,
    cache: &mut PolicyCache,
    now: u64,
) -> (latest: Timestamp)
    ensures
        trusted(*old(cache), now) matches Some(value) ==> latest == value && *final(cache) == *old(
            cache,
        ),
        trusted(*old(cache), now) is None ==> final(cache).entry == Some((now, latest)) && (latest
            == latest_change(db.policies()) || (!db.policies_reliable() && latest
            == epoch_of_unix())),
{
    match cache.fresh(now) {
        Some(value) => value,
        None => cache.renew(now, db.fetch_policy_changes()),
    }
}

/// What was just learned is trusted for the time set, and not a moment longer.
pub proof fn law_cache_expires(cache: PolicyCache, fetched_at: u64, value: Timestamp, now: u64)
    requires
        cache.entry == Some((fetched_at, value)),
        fetched_at <= now,
    ensures
        trusted(cache, now) == if now < fetched_at + TTL {
            Some(value)
        } else {
            None
        },
{
}

pub(crate) proof fn lemma_published(policies: Seq<PolicyChange>, id: Seq<char>)
    ensures
        published(policies, id) is None <==> forall|i: int|
            0 <= i < policies.len() ==> (#[trigger] policies[i]).id@ != id,
        published(policies, id) is Some ==> exists|i: int|
            #![trigger policies[i]]
            0 <= i < policies.len() && policies[i] == published(policies, id)->0 && policies[i].id@
                == id && forall|j: int| 0 <= j < i ==> (#[trigger] policies[j]).id@ != id,
    decreases policies.len(),
{
    if policies.len() != 0 && policies[0].id@ != id {
        let rest = policies.drop_first();
        lemma_published(rest, id);
        if published(rest, id) is Some {
            let i = choose|i: int|
                #![trigger rest[i]]
                0 <= i < rest.len() && rest[i] == published(rest, id)->0 && rest[i].id@ == id
                    && forall|j: int| 0 <= j < i ==> (#[trigger] rest[j]).id@ != id;
            assert(policies[i + 1] == rest[i]);
            assert forall|j: int| 0 <= j < i + 1 implies (#[trigger] policies[j]).id@ != id by {
                if j > 0 {
                    assert(rest[j - 1] == policies[j]);
                }
            }
        } else {
            assert forall|i: int| 0 <= i < policies.len() implies (#[trigger] policies[i]).id@
                != id by {
                if i > 0 {
                    assert(rest[i - 1] == policies[i]);
                }
            }
        }
    } else if policies.len() != 0 {
        assert(policies[0].id@ == id);
    }
}

/// A policy is found by its id exactly if one has it; of several it is the first.
pub proof fn law_policy_is_found_by_its_id(
    policies: Vec<PolicyChange>,
    id: &str,
    result: Option<PolicyChange>,
    place: int,
)
    requires
        call_ensures(find_policy, (policies, id), result),
    ensures
        (forall|i: int| 0 <= i < policies@.len() ==> (#[trigger] policies@[i]).id@ != id@)
            ==> result is None,
        0 <= place < policies@.len() && policies@[place].id@ == id@ && (forall|j: int|
            0 <= j < place ==> (#[trigger] policies@[j]).id@ != id@) ==> result == Some(
            policies@[place],
        ),
{
    lemma_published(policies@, id@);
}

proof fn lemma_newest_place(policies: Seq<PolicyChange>)
    requires
        policies.len() > 0,
    ensures
        exists|i: int|
            #![trigger policies[i]]
            0 <= i < policies.len() && newest(policies) == Some(policies[i]) && forall|j: int|
                i < j < policies.len() ==> (
                #[trigger] policies[j]).created_time.earlier_than(policies[i].created_time),
    decreases policies.len(),
{
    let rest = policies.drop_last();
    let last = policies.len() - 1;
    assert(policies[last] == policies.last());
    if rest.len() > 0 {
        lemma_newest_place(rest);
        let i = choose|i: int|
            #![trigger rest[i]]
            0 <= i < rest.len() && newest(rest) == Some(rest[i]) && forall|j: int|
                i < j < rest.len() ==> (#[trigger] rest[j]).created_time.earlier_than(
                    rest[i].created_time,
                );
        assert(policies[i] == rest[i]);
        if policies.last().created_time.earlier_than(rest[i].created_time) {
            assert forall|j: int| i < j < policies.len() implies (
            #[trigger] policies[j]).created_time.earlier_than(policies[i].created_time) by {
                if j < last {
                    assert(rest[j] == policies[j]);
                }
            }
        }
    }
}

/// Whether a policy of a list is the one in force: none was created after it, and of those created
/// when it was it is listed last.
pub open spec fn is_in_force(policies: Seq<PolicyChange>, i: int) -> bool {
    &&& 0 <= i < policies.len()
    &&& forall|j: int|
        #![trigger policies[j]]
        0 <= j < policies.len() ==> policies[j].created_time.seconds
            < policies[i].created_time.seconds || (policies[j].created_time.seconds
            == policies[i].created_time.seconds && policies[j].created_time.nanoseconds
            <= policies[i].created_time.nanoseconds)
    &&& forall|j: int|
        #![trigger policies[j]]
        i < j < policies.len() ==> policies[j].created_time != policies[i].created_time
}

pub(crate) proof fn lemma_in_force(policies: Seq<PolicyChange>, i: int)
    requires
        is_in_force(policies, i),
    ensures
        newest(policies) == Some(policies[i]),
{
    law_newest_policy(policies);
    lemma_newest_place(policies);
    let k = choose|k: int|
        #![trigger policies[k]]
        0 <= k < policies.len() && newest(policies) == Some(policies[k]) && forall|j: int|
            k < j < policies.len() ==> (#[trigger] policies[j]).created_time.earlier_than(
                policies[k].created_time,
            );
    assert(!policies[k].created_time.earlier_than(policies[i].created_time));
    assert(policies[k].created_time == policies[i].created_time);
    if k < i {
        assert(policies[i].created_time.earlier_than(policies[k].created_time));
    }
    if i < k {
        assert(policies[k].created_time != policies[i].created_time);
    }
}

/// The policy that none was created after is the newest; of several it is the one listed last.
pub proof fn law_latest_policy_is_in_force(
    policies: Vec<PolicyChange>,
    result: Option<PolicyChange>,
    i: int,
)
    requires
        call_ensures(newest_policy, (policies,), result),
    ensures
        policies@.len() == 0 ==> result is None,
        policies@.len() != 0 ==> result is Some && policies@.contains(result->0),
        is_in_force(policies@, i) ==> result == Some(policies@[i]),
{
    law_newest_policy(policies@);
    if is_in_force(policies@, i) {
        lemma_in_force(policies@, i);
    }
}

/// An answer is trusted for thirty seconds from when it was given.
pub proof fn law_answer_is_trusted_for_thirty_seconds(
    cache: &PolicyCache,
    now: u64,
    result: Option<Timestamp>,
)
    requires
        call_ensures(PolicyCache::fresh, (cache, now), result),
    ensures
        cache.entry is None ==> result is None,
        cache.entry matches Some((at, value)) ==> result == if now < at + 30_000_000_000 {
            Some(value)
        } else {
            None
        },
{
}

/// What is learned is when the policy in force was created, and the beginning of 1970 where there
/// is none or the database did not answer; it is kept with the time at which it was learned.
pub proof fn law_answer_is_kept(
    cache: &mut PolicyCache,
    now: u64,
    answer: Result<Vec<PolicyChange>>,
    latest: Timestamp,
    i: int,
)
    requires
        call_ensures(PolicyCache::renew, (cache, now, answer), latest),
    ensures
        final(cache).entry == Some((now, latest)),
        answer is Err ==> latest.seconds == 0 && latest.nanoseconds == 0,
        answer matches Ok(policies) && policies@.len() == 0 ==> latest.seconds == 0
            && latest.nanoseconds == 0,
        answer matches Ok(policies) && is_in_force(policies@, i) ==> latest
            == answer->Ok_0@[i].created_time,
{
    if answer is Ok && is_in_force(answer->Ok_0@, i) {
        lemma_in_force(answer->Ok_0@, i);
    }
}

/// Within thirty seconds the answer stays the same and the database is not asked; after that it is
/// when the policy in force was created, and where the database failed the beginning of 1970.
pub proof fn law_latest_change_is_asked_for_when_stale<D: AbstractPolicyChange>(
    db: &D,
    cache: &mut PolicyCache,
    now: u64,
    latest: Timestamp,
    i: int,
)
    requires
        call_ensures(latest_policy_change_time::<D>, (db, cache, now), latest),
        db.policies().len() != 0 ==> is_in_force(db.policies(), i),
    ensures
        old(cache).entry matches Some((at, value)) && now < at + 30_000_000_000 ==> latest == (
        old(cache).entry->0).1 && *final(cache) == *old(cache),
        old(cache).entry is None || now >= (old(cache).entry->0).0 + 30_000_000_000 ==> {
            &&& final(cache).entry == Some((now, latest))
            &&& (db.policies().len() != 0 && latest == db.policies()[i].created_time) || ((
            db.policies().len() == 0 || !db.policies_reliable()) && latest.seconds == 0
                && latest.nanoseconds == 0)
        },
{
    if db.policies().len() != 0 {
        lemma_in_force(db.policies(), i);
    }
}

} // verus!
